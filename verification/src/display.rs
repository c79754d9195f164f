//! Errors as texts for people to read.
use crate::convert;
use crate::ctx::Ctx;
use crate::exception;
use crate::exception::Exception;
use vstd::prelude::*;
use vstd::string::StringExecFns;

verus! {

/// The pieces that an error is shown as: a label, then the message and the stack as far
/// as there are any.
pub open spec fn pieces_of(message: Option<Seq<char>>, stack: Option<Seq<char>>) -> Seq<
    Seq<char>,
> {
    seq!["Error:"@] + (match message {
        Some(message) => seq![" "@, message],
        None => seq![],
    }) + (match stack {
        Some(stack) => seq!["\n"@, stack],
        None => seq![],
    })
}

/// One text after the other.
pub open spec fn joined(pieces: Seq<Seq<char>>) -> Seq<char>
    decreases pieces.len(),
{
    if pieces.len() == 0 {
        Seq::empty()
    } else {
        joined(pieces.drop_last()) + pieces.last()
    }
}

/// What the pieces say.
pub open spec fn piece_views(pieces: Seq<String>) -> Seq<Seq<char>> {
    pieces.map_values(|piece: String| piece@)
}

/// The pieces that an error with this message and this stack is shown as.
pub fn pieces(message: Option<String>, stack: Option<String>) -> (pieces: Vec<String>)
    ensures
        piece_views(pieces@) == pieces_of(
            convert::text_view(message),
            convert::text_view(stack),
        ),
{
    let mut pieces: Vec<String> = Vec::new();
    pieces.push("Error:".to_owned());
    if let Some(message) = message {
        pieces.push(" ".to_owned());
        pieces.push(message);
    }
    if let Some(stack) = stack {
        pieces.push("\n".to_owned());
        pieces.push(stack);
    }
    assert(piece_views(pieces@) =~= pieces_of(
        convert::text_view(message),
        convert::text_view(stack),
    ));
    pieces
}

fn join(pieces: &Vec<String>) -> (text: String)
    ensures
        text@ == joined(piece_views(pieces@)),
{
    let ghost views = piece_views(pieces@);
    let mut text: String = String::new();
    let mut i: usize = 0;
    while i < pieces.len()
        invariant
            i <= pieces.len(),
            views == piece_views(pieces@),
            text@ == joined(views.take(i as int)),
        decreases pieces.len() - i,
    {
        text.append(pieces[i].as_str());
        assert(views.take(i + 1).drop_last() =~= views.take(i as int));
        i = i + 1;
    }
    assert(views.take(i as int) =~= views);
    text
}

/// What `core::fmt::Debug` writes for a text: the text in quotes, with its special
/// characters escaped.
pub uninterp spec fn quoted(text: Seq<char>) -> Seq<char>;

/// Calls `alloc::fmt::format` with the `core::fmt::Debug` implementation of `str`. Which
/// characters that one escapes is not said here, only that it goes by the text alone.
#[verifier::external_body]
fn quote(text: &str) -> (quotation: String)
    ensures
        quotation@ == quoted(text@),
{
    format!("{:?}", text)
}

/// A quotation, if there is one, as `core::fmt::Debug` shows an optional value.
pub open spec fn optional(quotation: Option<Seq<char>>) -> Seq<char> {
    match quotation {
        Some(quotation) => "Some("@ + quotation + ")"@,
        None => "None"@,
    }
}

/// The text that shows an error to a developer, from the quotations of its message and
/// of its stack.
pub open spec fn debug_of(message: Option<Seq<char>>, stack: Option<Seq<char>>) -> Seq<char> {
    "Exception { message: "@ + optional(message) + ", stack: "@ + optional(stack) + " }"@
}

/// An optional text in quotes.
pub open spec fn optional_quoted(text: Option<Seq<char>>) -> Option<Seq<char>> {
    match text {
        Some(text) => Some(quoted(text)),
        None => None,
    }
}

fn append_optional(text: &mut String, quotation: &Option<String>)
    ensures
        final(text)@ == old(text)@ + optional(convert::text_view(*quotation)),
{
    match quotation {
        Some(quotation) => {
            text.append("Some(");
            text.append(quotation.as_str());
            text.append(")");
        },
        None => {
            text.append("None");
        },
    }
    assert(text@ =~= old(text)@ + optional(convert::text_view(*quotation)));
}

/// The text that shows an error to a developer, from the quotations of its message and
/// of its stack.
pub fn debug_text(message: Option<String>, stack: Option<String>) -> (text: String)
    ensures
        text@ == debug_of(convert::text_view(message), convert::text_view(stack)),
{
    let mut text: String = "Exception { message: ".to_owned();
    append_optional(&mut text, &message);
    text.append(", stack: ");
    append_optional(&mut text, &stack);
    text.append(" }");
    text
}

fn quote_optional(text: Option<String>) -> (quotation: Option<String>)
    ensures
        convert::text_view(quotation) == optional_quoted(convert::text_view(text)),
{
    match text {
        Some(text) => Some(quote(text.as_str())),
        None => None,
    }
}

impl Exception {
    /// The pieces that the error is shown as.
    pub fn display_pieces(&self, ctx: &mut Ctx) -> (pieces: Vec<String>)
        ensures
            piece_views(pieces@) == pieces_of(
                exception::read_text(self@, "message"@),
                exception::read_text(self@, "stack"@),
            ),
            *final(ctx) == exception::after_read(
                exception::after_read(*old(ctx), self@, "message"@),
                self@,
                "stack"@,
            ),
    {
        let message: Option<String> = self.message(ctx);
        let stack: Option<String> = self.stack(ctx);
        pieces(message, stack)
    }

    /// The text that the error is shown as.
    pub fn display(&self, ctx: &mut Ctx) -> (text: String)
        ensures
            text@ == joined(
                pieces_of(
                    exception::read_text(self@, "message"@),
                    exception::read_text(self@, "stack"@),
                ),
            ),
            *final(ctx) == exception::after_read(
                exception::after_read(*old(ctx), self@, "message"@),
                self@,
                "stack"@,
            ),
    {
        join(&self.display_pieces(ctx))
    }

    /// The text that shows the error to a developer.
    pub fn debug(&self, ctx: &mut Ctx) -> (text: String)
        ensures
            text@ == debug_of(
                optional_quoted(exception::read_text(self@, "message"@)),
                optional_quoted(exception::read_text(self@, "stack"@)),
            ),
            *final(ctx) == exception::after_read(
                exception::after_read(*old(ctx), self@, "message"@),
                self@,
                "stack"@,
            ),
    {
        let message: Option<String> = quote_optional(self.message(ctx));
        let stack: Option<String> = quote_optional(self.stack(ctx));
        debug_text(message, stack)
    }
}

/// The text that an error is shown as, written out.
pub proof fn law_display_text(message: Option<Seq<char>>, stack: Option<Seq<char>>)
    ensures
        joined(pieces_of(message, stack)) == "Error:"@ + (match message {
            Some(message) => " "@ + message,
            None => Seq::empty(),
        }) + (match stack {
            Some(stack) => "\n"@ + stack,
            None => Seq::empty(),
        }),
{
    let whole = pieces_of(message, stack);
    let front = pieces_of(message, None);
    reveal_with_fuel(joined, 4);
    assert(pieces_of(None, None) =~= seq!["Error:"@]);
    assert(joined(seq!["Error:"@]) =~= "Error:"@) by {
        assert(seq!["Error:"@].drop_last() =~= Seq::empty());
    }
    if let Some(message) = message {
        assert(front.drop_last().drop_last() =~= pieces_of(None, None));
        assert(front.drop_last().last() == " "@);
        assert(joined(front) =~= "Error:"@ + (" "@ + message));
    }
    if let Some(stack) = stack {
        assert(whole.drop_last().drop_last() =~= front);
        assert(whole.drop_last().last() == "\n"@);
        assert(joined(whole) =~= joined(front) + ("\n"@ + stack));
    } else {
        assert(whole =~= front);
    }
}

} // verus!
