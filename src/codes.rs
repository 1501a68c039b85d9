//! Decoded codes and the classification of their content.
use vstd::prelude::*;
use vstd::string::StrSliceExecFns;

verus! {

/// The kind of content a decoded code carries.
#[derive(Debug, Clone, Copy, PartialEq, Eq, Structural)]
pub enum QrCodeType {
    Url,
    Text,
    Email,
    Phone,
    Other,
}

/// One decoded code: its content and the kind derived from that content.
#[derive(Debug, Clone)]
pub struct QrCodeResult {
    pub content: String,
    pub qr_type: QrCodeType,
}

/// `p` is a prefix of `s`.
pub open spec fn starts_with_seq(s: Seq<char>, p: Seq<char>) -> bool {
    p.len() <= s.len() && s.subrange(0, p.len() as int) == p
}

/// `p` occurs somewhere in `s`.
pub open spec fn contains_seq(s: Seq<char>, p: Seq<char>) -> bool {
    exists|i: int| 0 <= i && i + p.len() <= s.len() && #[trigger] s.subrange(i, i + p.len()) == p
}

pub open spec fn http_prefix() -> Seq<char> {
    seq!['h', 't', 't', 'p', ':', '/', '/']
}

pub open spec fn https_prefix() -> Seq<char> {
    seq!['h', 't', 't', 'p', 's', ':', '/', '/']
}

pub open spec fn mailto_prefix() -> Seq<char> {
    seq!['m', 'a', 'i', 'l', 't', 'o', ':']
}

pub open spec fn tel_prefix() -> Seq<char> {
    seq!['t', 'e', 'l', ':']
}

pub open spec fn scheme_separator() -> Seq<char> {
    seq![':', '/', '/']
}

/// The kind of a content string: web links first, then mail and phone
/// schemes, then any other scheme, and plain text otherwise.
pub open spec fn kind_of(s: Seq<char>) -> QrCodeType {
    if starts_with_seq(s, http_prefix()) || starts_with_seq(s, https_prefix()) {
        QrCodeType::Url
    } else if starts_with_seq(s, mailto_prefix()) {
        QrCodeType::Email
    } else if starts_with_seq(s, tel_prefix()) {
        QrCodeType::Phone
    } else if contains_seq(s, scheme_separator()) {
        QrCodeType::Other
    } else {
        QrCodeType::Text
    }
}

/// A result is well formed when its kind is the one its content implies.
pub open spec fn result_wf(r: QrCodeResult) -> bool {
    r.qr_type == kind_of(r.content@)
}

/// The characters of `s`, one by one.
fn chars_of(s: &str) -> (r: Vec<char>)
    ensures
        r@ == s@,
{
    let n = s.unicode_len();
    let mut out: Vec<char> = Vec::new();
    let mut i: usize = 0;
    while i < n
        invariant
            n == s@.len(),
            i <= n,
            out@ == s@.subrange(0, i as int),
        decreases n - i,
    {
        out.push(s.get_char(i));
        i = i + 1;
        assert(out@ =~= s@.subrange(0, i as int));
    }
    assert(out@ =~= s@);
    out
}

/// Whether `p` occurs in `s` starting at index `at`.
fn matches_at(s: &Vec<char>, p: &[char], at: usize) -> (r: bool)
    ensures
        r == (at + p@.len() <= s@.len() && s@.subrange(at as int, at + p@.len()) == p@),
{
    if p.len() > s.len() || at > s.len() - p.len() {
        return false;
    }
    let n = s.len();
    let mut j: usize = 0;
    while j < p.len()
        invariant
            n == s@.len(),
            at + p@.len() <= n,
            j <= p@.len(),
            forall|k: int| 0 <= k < j ==> s@[at + k] == p@[k],
        decreases p@.len() - j,
    {
        if s[at + j] != p[j] {
            assert(s@.subrange(at as int, at + p@.len())[j as int] != p@[j as int]);
            return false;
        }
        j = j + 1;
    }
    assert(s@.subrange(at as int, at + p@.len()) =~= p@);
    true
}

/// Whether `p` occurs anywhere in `s`.
fn contains_chars(s: &Vec<char>, p: &[char]) -> (r: bool)
    ensures
        r == contains_seq(s@, p@),
{
    if p.len() > s.len() {
        return false;
    }
    let last = s.len() - p.len();
    let mut i: usize = 0;
    while i <= last
        invariant
            last + p@.len() == s@.len(),
            forall|k: int| 0 <= k < i ==> #[trigger] s@.subrange(k, k + p@.len()) != p@,
        decreases last + 1 - i,
    {
        if matches_at(s, p, i) {
            return true;
        }
        if i == last {
            return false;
        }
        i = i + 1;
    }
    false
}

/// Whether `s` is exactly the characters `p`.
pub fn str_equals(s: &str, p: &[char]) -> (r: bool)
    ensures
        r == (s@ == p@),
{
    let cs = chars_of(s);
    if cs.len() != p.len() {
        return false;
    }
    let r = matches_at(&cs, p, 0);
    assert(cs@.subrange(0, p@.len() as int) =~= cs@);
    r
}

impl QrCodeType {
    /// Classifies a content string.
    pub fn from_content(content: &str) -> (r: QrCodeType)
        ensures
            r == kind_of(content@),
    {
        let s = chars_of(content);
        let http = ['h', 't', 't', 'p', ':', '/', '/'];
        let https = ['h', 't', 't', 'p', 's', ':', '/', '/'];
        let mailto = ['m', 'a', 'i', 'l', 't', 'o', ':'];
        let tel = ['t', 'e', 'l', ':'];
        let sep = [':', '/', '/'];
        assert(http@ =~= http_prefix());
        assert(https@ =~= https_prefix());
        assert(mailto@ =~= mailto_prefix());
        assert(tel@ =~= tel_prefix());
        assert(sep@ =~= scheme_separator());
        if matches_at(&s, &http, 0) || matches_at(&s, &https, 0) {
            QrCodeType::Url
        } else if matches_at(&s, &mailto, 0) {
            QrCodeType::Email
        } else if matches_at(&s, &tel, 0) {
            QrCodeType::Phone
        } else if contains_chars(&s, &sep) {
            QrCodeType::Other
        } else {
            QrCodeType::Text
        }
    }
}

impl QrCodeResult {
    /// A result for `content`, with its kind derived from it.
    pub fn new(content: String) -> (r: QrCodeResult)
        ensures
            r.content@ == content@,
            result_wf(r),
    {
        let qr_type = QrCodeType::from_content(content.as_str());
        QrCodeResult { content, qr_type }
    }
}

} // verus!
