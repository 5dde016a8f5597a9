//! The command-line lexer: `lexopt` behind trusted wrappers, and the plain
//! values the rest of the library reads from it.
use vstd::prelude::*;

use lexopt::ValueExt;

use crate::paths::opt_view;
use crate::text::string_views;

verus! {

/// `lexopt::Parser`, carried through opaquely.
#[verifier::external_type_specification]
#[verifier::external_body]
pub struct ExLexoptParser(lexopt::Parser);

/// `lexopt::Error`, carried through opaquely.
#[verifier::external_type_specification]
#[verifier::external_body]
pub struct ExLexoptError(lexopt::Error);

/// What `Parser::from_args` makes of the given arguments.
pub uninterp spec fn lexopt_from_args(args: Seq<Seq<char>>) -> lexopt::Parser;

/// What `Parser::next` gives for a parser: the item (or the error), and the
/// parser after it; a positional value is read with `ValueExt::string`, so one
/// that is not valid UTF-8 is lexopt's `NonUnicodeValue` error.
pub uninterp spec fn lexopt_next(p: lexopt::Parser) -> (Result<Option<LexItemView>, lexopt::Error>, lexopt::Parser);

/// What `Parser::value` gives for a parser: the value (or the error), and the
/// parser after it; the value is read with `ValueExt::string`, so one that is
/// not valid UTF-8 is lexopt's `NonUnicodeValue` error.
pub uninterp spec fn lexopt_value(p: lexopt::Parser) -> (Result<Seq<char>, lexopt::Error>, lexopt::Parser);

/// What a lexer error says, in the library's terms.
pub uninterp spec fn lexopt_failure(e: lexopt::Error) -> LexFailureView;

/// How much of its input a parser has not handed out yet: the arguments still
/// queued and what is left of the one being taken apart.
pub uninterp spec fn parser_pending(p: lexopt::Parser) -> nat;

/// One item handed out by the lexer.
#[derive(Debug)]
pub enum LexItem {
    /// `-c`
    Short(char),
    /// `--name` (without the dashes)
    Long(String),
    /// A positional argument.
    Value(String),
}

/// The view of a lexer item.
pub enum LexItemView {
    Short(char),
    Long(Seq<char>),
    Value(Seq<char>),
}

impl View for LexItem {
    type V = LexItemView;

    open spec fn view(&self) -> LexItemView {
        match self {
            LexItem::Short(c) => LexItemView::Short(*c),
            LexItem::Long(n) => LexItemView::Long(n@),
            LexItem::Value(v) => LexItemView::Value(v@),
        }
    }
}

/// Why the lexer refused to go on.
#[derive(Debug)]
pub enum LexFailure {
    /// An option that takes a value came last; the option as written, if known.
    MissingValue(Option<String>),
    /// `--name=value` where the option takes no value: the option and the value.
    UnexpectedValue(String, String),
    /// Any other refusal, as the lexer words it.
    Other(String),
}

/// The view of a lexer failure.
pub enum LexFailureView {
    MissingValue(Option<Seq<char>>),
    UnexpectedValue(Seq<char>, Seq<char>),
    Other(Seq<char>),
}

impl View for LexFailure {
    type V = LexFailureView;

    open spec fn view(&self) -> LexFailureView {
        match self {
            LexFailure::MissingValue(o) => LexFailureView::MissingValue(opt_view(*o)),
            LexFailure::UnexpectedValue(o, v) => LexFailureView::UnexpectedValue(o@, v@),
            LexFailure::Other(m) => LexFailureView::Other(m@),
        }
    }
}

/// The view of what `next` handed out.
pub open spec fn next_view(o: Option<LexItem>) -> Option<LexItemView> {
    match o {
        Some(item) => Some(item@),
        None => None,
    }
}

/// Trusted wrapper around `lexopt::Parser::from_args`: a parser over `args`,
/// which do not include the program name.
///
/// Claims that the parser is the one named by `lexopt_from_args` for these arguments.
#[verifier::external_body]
pub(crate) fn parser_from_args(args: Vec<String>) -> (p: lexopt::Parser)
    ensures
        p == lexopt_from_args(string_views(args@)),
{
    lexopt::Parser::from_args(args)
}

/// Trusted wrapper around `lexopt::Parser::next`.
///
/// Claims that the item (or error) and the parser after the call are the ones
/// named by `lexopt_next` for the parser before it, and that an item handed out
/// uses up part of the parser's input. Which item that is for given arguments
/// is lexopt's rule and is not restated. A positional value is read with
/// `ValueExt::string`: one that is not valid UTF-8 is not altered but refused
/// with lexopt's `NonUnicodeValue` error.
#[verifier::external_body]
pub(crate) fn lex_next(p: &mut lexopt::Parser) -> (res: Result<Option<LexItem>, lexopt::Error>)
    ensures
        *final(p) == lexopt_next(*old(p)).1,
        match res {
            Ok(o) => lexopt_next(*old(p)).0 == Ok::<Option<LexItemView>, lexopt::Error>(next_view(o)),
            Err(e) => lexopt_next(*old(p)).0 == Err::<Option<LexItemView>, lexopt::Error>(e),
        },
        res matches Ok(Some(_)) ==> parser_pending(*final(p)) < parser_pending(*old(p)),
{
    match p.next() {
        Ok(Some(lexopt::Arg::Short(c))) => Ok(Some(LexItem::Short(c))),
        Ok(Some(lexopt::Arg::Long(name))) => Ok(Some(LexItem::Long(name.to_string()))),
        Ok(Some(lexopt::Arg::Value(v))) => match v.string() {
            Ok(v) => Ok(Some(LexItem::Value(v))),
            Err(e) => Err(e),
        },
        Ok(None) => Ok(None),
        Err(e) => Err(e),
    }
}

/// Trusted wrapper around `lexopt::Parser::value`.
///
/// Claims that the value (or error) and the parser after the call are the ones
/// named by `lexopt_value` for the parser before it, and that taking a value
/// does not add to the parser's input. The value is read with
/// `ValueExt::string`: one that is not valid UTF-8 is not altered but refused
/// with lexopt's `NonUnicodeValue` error.
#[verifier::external_body]
pub(crate) fn lex_value(p: &mut lexopt::Parser) -> (res: Result<String, lexopt::Error>)
    ensures
        *final(p) == lexopt_value(*old(p)).1,
        match res {
            Ok(v) => lexopt_value(*old(p)).0 == Ok::<Seq<char>, lexopt::Error>(v@),
            Err(e) => lexopt_value(*old(p)).0 == Err::<Seq<char>, lexopt::Error>(e),
        },
        res is Ok ==> parser_pending(*final(p)) <= parser_pending(*old(p)),
{
    match p.value() {
        Ok(v) => v.string(),
        Err(e) => Err(e),
    }
}

/// Trusted wrapper that reads a `lexopt::Error` into the library's own terms:
/// the missing option, the option and its unwanted value (where that value is
/// valid UTF-8), or else the error's text as lexopt displays it.
///
/// Claims that the result is the one named by `lexopt_failure` for this error.
#[verifier::external_body]
pub(crate) fn lex_failure(e: lexopt::Error) -> (f: LexFailure)
    ensures
        f@ == lexopt_failure(e),
{
    match e {
        lexopt::Error::MissingValue { option } => LexFailure::MissingValue(option),
        lexopt::Error::UnexpectedValue { option, value } => match value.into_string() {
            Ok(v) => LexFailure::UnexpectedValue(option, v),
            Err(value) => LexFailure::Other(lexopt::Error::UnexpectedValue { option, value }.to_string()),
        },
        other => LexFailure::Other(other.to_string()),
    }
}

} // verus!
