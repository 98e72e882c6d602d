use vstd::prelude::*;
use crate::text::{chars_of, contains};

verus! {

/// What a status line reports, read from its words.
#[derive(Clone, Copy, Debug, PartialEq, Eq, Structural)]
pub enum LogKind {
    Error,
    Skip,
    Parse,
    Add,
    Call,
    Response,
    Detect,
    Write,
    Init,
    Load,
    Trim,
    Unchanged,
    Monitoring,
    Plain,
}

/// The lower-case form of a text, as `str::to_lowercase` gives it.
pub uninterp spec fn lower_of(s: Seq<char>) -> Seq<char>;

/// Relies on `str::to_lowercase`: the result depends on the characters alone.
#[verifier::external_body]
fn lowercase(s: &str) -> (r: String)
    ensures
        r@ == lower_of(s@),
{
    s.to_lowercase()
}

/// The kind of a lower-case line: the first keyword, in a fixed order, that it holds.
pub open spec fn kind_of(s: Seq<char>) -> LogKind {
    if contains(s, "error"@) {
        LogKind::Error
    } else if contains(s, "skip"@) {
        LogKind::Skip
    } else if contains(s, "parse"@) {
        LogKind::Parse
    } else if contains(s, "add"@) {
        LogKind::Add
    } else if contains(s, "call"@) {
        LogKind::Call
    } else if contains(s, "response"@) {
        LogKind::Response
    } else if contains(s, "detect"@) {
        LogKind::Detect
    } else if contains(s, "write"@) {
        LogKind::Write
    } else if contains(s, "init"@) {
        LogKind::Init
    } else if contains(s, "load"@) {
        LogKind::Load
    } else if contains(s, "trim"@) {
        LogKind::Trim
    } else if contains(s, "unchanged"@) {
        LogKind::Unchanged
    } else if contains(s, "monitoring"@) {
        LogKind::Monitoring
    } else {
        LogKind::Plain
    }
}

/// Whether `key` occurs in `s`.
fn has(s: &Vec<char>, key: &str) -> (r: bool)
    ensures
        r == contains(s@, key@),
{
    let k = chars_of(key);
    crate::text::contains_chars(s, &k)
}

/// The kind of a line that is already in lower case.
pub fn kind_of_lowered(lower: &str) -> (r: LogKind)
    ensures
        r == kind_of(lower@),
{
    let s = chars_of(lower);
    if has(&s, "error") {
        LogKind::Error
    } else if has(&s, "skip") {
        LogKind::Skip
    } else if has(&s, "parse") {
        LogKind::Parse
    } else if has(&s, "add") {
        LogKind::Add
    } else if has(&s, "call") {
        LogKind::Call
    } else if has(&s, "response") {
        LogKind::Response
    } else if has(&s, "detect") {
        LogKind::Detect
    } else if has(&s, "write") {
        LogKind::Write
    } else if has(&s, "init") {
        LogKind::Init
    } else if has(&s, "load") {
        LogKind::Load
    } else if has(&s, "trim") {
        LogKind::Trim
    } else if has(&s, "unchanged") {
        LogKind::Unchanged
    } else if has(&s, "monitoring") {
        LogKind::Monitoring
    } else {
        LogKind::Plain
    }
}

/// The kind of a status line, matched without regard to case.
pub fn log_kind(message: &str) -> (r: LogKind)
    ensures
        r == kind_of(lower_of(message@)),
{
    let lower = lowercase(message);
    kind_of_lowered(lower.as_str())
}

} // verus!
