use crate::bytes::append_bytes;
use vstd::prelude::*;
use vstd::string::{StrSliceExecFns, StringSliceAdditionalSpecFns};
use vstd::utf8::{decode_utf8, valid_utf8};

verus! {

/// A way to reach the people behind a program.
#[derive(Clone, Debug, PartialEq, Eq)]
pub enum Contact {
    Email(String),
    Discord(String),
    Telegram(String),
    Twitter(String),
    Link(String),
    Other(String),
}

/// The kinds of contact, without their values.
#[derive(Clone, Copy, Debug, PartialEq, Eq, Structural)]
pub enum ContactType {
    Email,
    Discord,
    Telegram,
    Twitter,
    Link,
    Other,
}

impl View for Contact {
    type V = (ContactType, Seq<char>);

    open spec fn view(&self) -> (ContactType, Seq<char>) {
        match self {
            Contact::Email(s) => (ContactType::Email, s@),
            Contact::Discord(s) => (ContactType::Discord, s@),
            Contact::Telegram(s) => (ContactType::Telegram, s@),
            Contact::Twitter(s) => (ContactType::Twitter, s@),
            Contact::Link(s) => (ContactType::Link, s@),
            Contact::Other(s) => (ContactType::Other, s@),
        }
    }
}

/// Whether `c` has Unicode's White_Space property.
pub open spec fn white_space(c: char) -> bool {
    let v = c as u32;
    ||| 0x09 <= v <= 0x0D
    ||| v == 0x20
    ||| v == 0x85
    ||| v == 0xA0
    ||| v == 0x1680
    ||| 0x2000 <= v <= 0x200A
    ||| v == 0x2028
    ||| v == 0x2029
    ||| v == 0x202F
    ||| v == 0x205F
    ||| v == 0x3000
}

/// Whether `c` has Unicode's White_Space property, as `char::is_whitespace`
/// decides it.
fn is_whitespace(c: char) -> (r: bool)
    ensures
        r == white_space(c),
{
    let v = c as u32;
    (0x09 <= v && v <= 0x0D) || v == 0x20 || v == 0x85 || v == 0xA0 || v == 0x1680 || (0x2000
        <= v && v <= 0x200A) || v == 0x2028 || v == 0x2029 || v == 0x202F || v == 0x205F || v
        == 0x3000
}

/// `s` without its leading white space.
pub open spec fn trim_start(s: Seq<char>) -> Seq<char>
    decreases s.len(),
{
    if s.len() > 0 && white_space(s[0]) {
        trim_start(s.drop_first())
    } else {
        s
    }
}

/// `s` without its trailing white space.
pub open spec fn trim_end(s: Seq<char>) -> Seq<char>
    decreases s.len(),
{
    if s.len() > 0 && white_space(s.last()) {
        trim_end(s.drop_last())
    } else {
        s
    }
}

/// `s` without white space at either end.
pub open spec fn trimmed(s: Seq<char>) -> Seq<char> {
    trim_end(trim_start(s))
}

/// Removes the white space at both ends of `s`.
pub fn trim(s: &str) -> (r: &str)
    ensures
        r@ == trimmed(s@),
{
    let n = s.unicode_len();
    assert(s@.subrange(0, n as int) =~= s@);
    let mut start: usize = 0;
    while start < n && is_whitespace(s.get_char(start))
        invariant
            n == s@.len(),
            0 <= start <= n,
            trim_start(s@) == trim_start(s@.subrange(start as int, n as int)),
        decreases n - start,
    {
        assert(s@.subrange(start as int, n as int).drop_first() =~= s@.subrange(
            start + 1,
            n as int,
        ));
        start = start + 1;
    }
    proof {
        let rest = s@.subrange(start as int, n as int);
        if start < n {
            assert(rest[0] == s@[start as int]);
        }
        assert(trim_start(rest) == rest);
    }
    let mut end: usize = n;
    while end > start && is_whitespace(s.get_char(end - 1))
        invariant
            n == s@.len(),
            0 <= start <= end <= n,
            trimmed(s@) == trim_end(s@.subrange(start as int, end as int)),
        decreases end,
    {
        assert(s@.subrange(start as int, end as int).drop_last() =~= s@.subrange(
            start as int,
            end - 1,
        ));
        end = end - 1;
    }
    proof {
        let mid = s@.subrange(start as int, end as int);
        if end > start {
            assert(mid.last() == s@[end - 1]);
        }
        assert(trim_end(mid) == mid);
    }
    s.substring_char(start, end)
}

/// The first index at or after `k` where `s` holds `x`.
pub open spec fn position<T>(s: Seq<T>, x: T, k: int) -> Option<int>
    decreases s.len() - k,
{
    if k < 0 || k >= s.len() {
        None
    } else if s[k] == x {
        Some(k)
    } else {
        position(s, x, k + 1)
    }
}

/// Whether `s`, with its ASCII capitals made small, is the all-small word `w`.
pub open spec fn folds_to(s: Seq<char>, w: Seq<char>) -> bool {
    &&& s.len() == w.len()
    &&& forall|i: int|
        0 <= i < s.len() ==> #[trigger] s[i] == w[i] || ('A' <= s[i] <= 'Z' && (s[i] as u32)
            + 32 == w[i] as u32)
}

/// The word that names a kind of contact.
pub open spec fn contact_word(t: ContactType) -> Seq<char> {
    match t {
        ContactType::Email => seq!['e', 'm', 'a', 'i', 'l'],
        ContactType::Discord => seq!['d', 'i', 's', 'c', 'o', 'r', 'd'],
        ContactType::Telegram => seq!['t', 'e', 'l', 'e', 'g', 'r', 'a', 'm'],
        ContactType::Twitter => seq!['t', 'w', 'i', 't', 't', 'e', 'r'],
        ContactType::Link => seq!['l', 'i', 'n', 'k'],
        ContactType::Other => seq!['o', 't', 'h', 'e', 'r'],
    }
}

/// The kind that the word `w` names, if any, case aside.
pub open spec fn contact_type_of(w: Seq<char>) -> Option<ContactType> {
    if folds_to(w, contact_word(ContactType::Email)) {
        Some(ContactType::Email)
    } else if folds_to(w, contact_word(ContactType::Discord)) {
        Some(ContactType::Discord)
    } else if folds_to(w, contact_word(ContactType::Telegram)) {
        Some(ContactType::Telegram)
    } else if folds_to(w, contact_word(ContactType::Twitter)) {
        Some(ContactType::Twitter)
    } else if folds_to(w, contact_word(ContactType::Link)) {
        Some(ContactType::Link)
    } else if folds_to(w, contact_word(ContactType::Other)) {
        Some(ContactType::Other)
    } else {
        None
    }
}

/// The contact that `s` writes as `kind: value`: the kind is the trimmed
/// text before the first colon, the value the trimmed text after it.
pub open spec fn contact_of(s: Seq<char>) -> Option<(ContactType, Seq<char>)> {
    match position(s, ':', 0) {
        None => None,
        Some(i) => match contact_type_of(trimmed(s.subrange(0, i))) {
            None => None,
            Some(t) => Some((t, trimmed(s.subrange(i + 1, s.len() as int)))),
        },
    }
}

/// Whether `s` is the all-small word `w`, ASCII case aside.
fn word_is(s: &str, w: &[char]) -> (r: bool)
    ensures
        r == folds_to(s@, w@),
{
    let n = s.unicode_len();
    if n != w.len() {
        return false;
    }
    let mut i: usize = 0;
    while i < n
        invariant
            n == s@.len() == w@.len(),
            0 <= i <= n,
            forall|j: int|
                0 <= j < i ==> #[trigger] s@[j] == w@[j] || ('A' <= s@[j] <= 'Z' && (s@[j] as u32)
                    + 32 == w@[j] as u32),
        decreases n - i,
    {
        let c = s.get_char(i);
        let d = w[i];
        if !(c == d || ('A' <= c && c <= 'Z' && (c as u32) + 32 == d as u32)) {
            return false;
        }
        i = i + 1;
    }
    true
}

/// The kind that `w` names, if any, case aside.
fn contact_type(w: &str) -> (r: Option<ContactType>)
    ensures
        r == contact_type_of(w@),
{
    let email = ['e', 'm', 'a', 'i', 'l'];
    let discord = ['d', 'i', 's', 'c', 'o', 'r', 'd'];
    let telegram = ['t', 'e', 'l', 'e', 'g', 'r', 'a', 'm'];
    let twitter = ['t', 'w', 'i', 't', 't', 'e', 'r'];
    let link = ['l', 'i', 'n', 'k'];
    let other = ['o', 't', 'h', 'e', 'r'];
    assert(email@ =~= contact_word(ContactType::Email));
    assert(discord@ =~= contact_word(ContactType::Discord));
    assert(telegram@ =~= contact_word(ContactType::Telegram));
    assert(twitter@ =~= contact_word(ContactType::Twitter));
    assert(link@ =~= contact_word(ContactType::Link));
    assert(other@ =~= contact_word(ContactType::Other));
    if word_is(w, email.as_slice()) {
        Some(ContactType::Email)
    } else if word_is(w, discord.as_slice()) {
        Some(ContactType::Discord)
    } else if word_is(w, telegram.as_slice()) {
        Some(ContactType::Telegram)
    } else if word_is(w, twitter.as_slice()) {
        Some(ContactType::Twitter)
    } else if word_is(w, link.as_slice()) {
        Some(ContactType::Link)
    } else if word_is(w, other.as_slice()) {
        Some(ContactType::Other)
    } else {
        None
    }
}

/// Finds the first `c` in `s`.
fn first_char(s: &str, c: char) -> (r: Option<usize>)
    ensures
        match r {
            Some(i) => position(s@, c, 0) == Some(i as int) && i < s@.len(),
            None => position(s@, c, 0) is None,
        },
{
    let n = s.unicode_len();
    let mut i: usize = 0;
    while i < n
        invariant
            n == s@.len(),
            0 <= i <= n,
            position(s@, c, 0) == position(s@, c, i as int),
        decreases n - i,
    {
        if s.get_char(i) == c {
            return Some(i);
        }
        i = i + 1;
    }
    None
}

impl Contact {
    /// Reads a contact written as `kind: value`, the kind in any ASCII case.
    pub fn from_str(s: &str) -> (r: Result<Contact, SecurityTxtError>)
        ensures
            match contact_of(s@) {
                Some(c) => r is Ok && r->Ok_0@ == c,
                None => r is Err && (r->Err_0 matches SecurityTxtError::InvalidContact(m) && m@ == s@),
            },
    {
        let n = s.unicode_len();
        let colon = match first_char(s, ':') {
            Some(i) => i,
            None => {
                return Err(SecurityTxtError::InvalidContact(s.to_owned()));
            },
        };
        let typ = trim(s.substring_char(0, colon));
        let value = trim(s.substring_char(colon + 1, n)).to_owned();
        match contact_type(typ) {
            Some(ContactType::Email) => Ok(Contact::Email(value)),
            Some(ContactType::Discord) => Ok(Contact::Discord(value)),
            Some(ContactType::Telegram) => Ok(Contact::Telegram(value)),
            Some(ContactType::Twitter) => Ok(Contact::Twitter(value)),
            Some(ContactType::Link) => Ok(Contact::Link(value)),
            Some(ContactType::Other) => Ok(Contact::Other(value)),
            None => Err(SecurityTxtError::InvalidContact(s.to_owned())),
        }
    }
}

/// Why a security.txt could not be read.
#[derive(Clone, Debug, PartialEq, Eq)]
pub enum SecurityTxtError {
    /// The data does not start with the opening marker.
    InvalidSecurityTxtBegin,
    /// The closing marker is missing.
    EndNotFound,
    /// No opening marker was found.
    StartNotFound,
    /// A field name is not UTF-8.
    InvalidField(Vec<u8>),
    /// A field that the format does not know.
    UnknownField(String),
    /// A value that is not UTF-8, with its field.
    InvalidValue(Vec<u8>, String),
    /// A contact that is not `kind: value` with a known kind.
    InvalidContact(String),
    /// A required field is missing.
    MissingField(String),
    /// A field appears twice.
    DuplicateField(String),
    /// The fields and values do not pair up.
    Uneven,
}

/// What can go wrong in reading a security.txt, with its details as sequences.
pub enum TxtFault {
    InvalidSecurityTxtBegin,
    EndNotFound,
    StartNotFound,
    InvalidField(Seq<u8>),
    UnknownField(Seq<char>),
    InvalidValue(Seq<u8>, Seq<char>),
    InvalidContact(Seq<char>),
    MissingField(Seq<char>),
    DuplicateField(Seq<char>),
    Uneven,
}

impl View for SecurityTxtError {
    type V = TxtFault;

    open spec fn view(&self) -> TxtFault {
        match self {
            SecurityTxtError::InvalidSecurityTxtBegin => TxtFault::InvalidSecurityTxtBegin,
            SecurityTxtError::EndNotFound => TxtFault::EndNotFound,
            SecurityTxtError::StartNotFound => TxtFault::StartNotFound,
            SecurityTxtError::InvalidField(b) => TxtFault::InvalidField(b@),
            SecurityTxtError::UnknownField(f) => TxtFault::UnknownField(f@),
            SecurityTxtError::InvalidValue(b, f) => TxtFault::InvalidValue(b@, f@),
            SecurityTxtError::InvalidContact(c) => TxtFault::InvalidContact(c@),
            SecurityTxtError::MissingField(f) => TxtFault::MissingField(f@),
            SecurityTxtError::DuplicateField(f) => TxtFault::DuplicateField(f@),
            SecurityTxtError::Uneven => TxtFault::Uneven,
        }
    }
}

/// The marker that opens a security.txt.
pub const SECURITY_TXT_BEGIN: &'static str = "=======BEGIN SECURITY.TXT V1=======\0";

/// The marker that closes a security.txt.
pub const SECURITY_TXT_END: &'static str = "=======END SECURITY.TXT V1=======\0";

/// A program's security contact sheet.
#[derive(Clone, Debug, PartialEq, Eq)]
pub struct SecurityTxt {
    pub name: String,
    pub project_url: String,
    pub contacts: Vec<Contact>,
    pub policy: String,
    pub preferred_languages: Vec<String>,
    pub source_code: Option<String>,
    pub source_release: Option<String>,
    pub source_revision: Option<String>,
    pub encryption: Option<String>,
    pub auditors: Vec<String>,
    pub acknowledgements: Option<String>,
    pub expiry: Option<String>,
}

/// A security.txt with its texts as sequences.
pub struct SecurityTxtModel {
    pub name: Seq<char>,
    pub project_url: Seq<char>,
    pub contacts: Seq<(ContactType, Seq<char>)>,
    pub policy: Seq<char>,
    pub preferred_languages: Seq<Seq<char>>,
    pub source_code: Option<Seq<char>>,
    pub source_release: Option<Seq<char>>,
    pub source_revision: Option<Seq<char>>,
    pub encryption: Option<Seq<char>>,
    pub auditors: Seq<Seq<char>>,
    pub acknowledgements: Option<Seq<char>>,
    pub expiry: Option<Seq<char>>,
}

/// The text of an optional string.
pub open spec fn opt_view(o: Option<String>) -> Option<Seq<char>> {
    match o {
        Some(s) => Some(s@),
        None => None,
    }
}

/// The texts of a list of strings.
pub open spec fn texts(v: Seq<String>) -> Seq<Seq<char>> {
    v.map_values(|s: String| s@)
}

impl View for SecurityTxt {
    type V = SecurityTxtModel;

    open spec fn view(&self) -> SecurityTxtModel {
        SecurityTxtModel {
            name: self.name@,
            project_url: self.project_url@,
            contacts: self.contacts@.map_values(|c: Contact| c@),
            policy: self.policy@,
            preferred_languages: texts(self.preferred_languages@),
            source_code: opt_view(self.source_code),
            source_release: opt_view(self.source_release),
            source_revision: opt_view(self.source_revision),
            encryption: opt_view(self.encryption),
            auditors: texts(self.auditors@),
            acknowledgements: opt_view(self.acknowledgements),
            expiry: opt_view(self.expiry),
        }
    }
}

/// The pieces of `s` from `k` on, cut at each `sep`, which is dropped.
pub open spec fn split_from<T>(s: Seq<T>, sep: T, k: int) -> Seq<Seq<T>>
    decreases s.len() - k,
{
    if k < 0 || k > s.len() {
        Seq::empty()
    } else {
        match position(s, sep, k) {
            Some(i) => if k <= i < s.len() {
                seq![s.subrange(k, i)] + split_from(s, sep, i + 1)
            } else {
                Seq::empty()
            },
            None => seq![s.subrange(k, s.len() as int)],
        }
    }
}

/// The pieces of `s` cut at each `sep`: one more than there are separators.
pub open spec fn split_seq<T>(s: Seq<T>, sep: T) -> Seq<Seq<T>> {
    split_from(s, sep, 0)
}

/// Cuts `s` at each zero byte.
fn split_zero(s: &[u8]) -> (r: Vec<Vec<u8>>)
    ensures
        r@.len() == split_seq(s@, 0u8).len(),
        forall|i: int| 0 <= i < r@.len() ==> #[trigger] r@[i]@ == split_seq(s@, 0u8)[i],
{
    let n = s.len();
    let mut parts: Vec<Vec<u8>> = Vec::new();
    let ghost mut done: Seq<Seq<u8>> = Seq::empty();
    let mut start: usize = 0;
    let mut i: usize = 0;
    while i < n
        invariant
            n == s@.len(),
            0 <= start <= i <= n,
            split_seq(s@, 0u8) == done + split_from(s@, 0u8, start as int),
            position(s@, 0u8, start as int) == position(s@, 0u8, i as int),
            parts@.len() == done.len(),
            forall|j: int| 0 <= j < done.len() ==> #[trigger] parts@[j]@ == done[j],
        decreases n - i,
    {
        if s[i] == 0 {
            let mut part: Vec<u8> = Vec::new();
            append_bytes(&mut part, &s[start..i]);
            proof {
                assert(part@ =~= s@.subrange(start as int, i as int));
                done = done.push(s@.subrange(start as int, i as int));
                assert(split_seq(s@, 0u8) =~= done + split_from(s@, 0u8, i + 1));
            }
            parts.push(part);
            start = i + 1;
        }
        i = i + 1;
    }
    let mut part: Vec<u8> = Vec::new();
    append_bytes(&mut part, &s[start..n]);
    proof {
        assert(part@ =~= s@.subrange(start as int, n as int));
        done = done.push(s@.subrange(start as int, n as int));
        assert(split_seq(s@, 0u8) =~= done);
    }
    parts.push(part);
    parts
}

/// Cuts `s` at each comma and trims each piece.
fn comma_pieces(s: &str) -> (r: Vec<String>)
    ensures
        texts(r@) == split_seq(s@, ',').map_values(|p: Seq<char>| trimmed(p)),
{
    let n = s.unicode_len();
    let mut pieces: Vec<String> = Vec::new();
    let ghost mut done: Seq<Seq<char>> = Seq::empty();
    let mut start: usize = 0;
    let mut i: usize = 0;
    while i < n
        invariant
            n == s@.len(),
            0 <= start <= i <= n,
            split_seq(s@, ',') == done + split_from(s@, ',', start as int),
            position(s@, ',', start as int) == position(s@, ',', i as int),
            pieces@.len() == done.len(),
            forall|j: int| 0 <= j < done.len() ==> #[trigger] pieces@[j]@ == trimmed(done[j]),
        decreases n - i,
    {
        if s.get_char(i) == ',' {
            let piece = trim(s.substring_char(start, i)).to_owned();
            proof {
                done = done.push(s@.subrange(start as int, i as int));
                assert(split_seq(s@, ',') =~= done + split_from(s@, ',', i + 1));
            }
            pieces.push(piece);
            start = i + 1;
        }
        i = i + 1;
    }
    let piece = trim(s.substring_char(start, n)).to_owned();
    proof {
        done = done.push(s@.subrange(start as int, n as int));
        assert(split_seq(s@, ',') =~= done);
    }
    pieces.push(piece);
    assert(texts(pieces@) =~= done.map_values(|p: Seq<char>| trimmed(p)));
    pieces
}

/// Relies on `std::str::from_utf8`: it accepts exactly the valid UTF-8
/// sequences, and the text is what they encode.
#[verifier::external_body]
fn utf8_text(b: &[u8]) -> (r: Option<String>)
    ensures
        r is Some <==> valid_utf8(b@),
        r is Some ==> r->0@ == decode_utf8(b@),
{
    match std::str::from_utf8(b) {
        Ok(t) => Some(t.to_owned()),
        Err(_) => None,
    }
}

/// The first index at or after `k` where `p` occurs in `t`.
pub open spec fn search_from(t: Seq<u8>, p: Seq<u8>, k: int) -> Option<int>
    decreases t.len() - k,
{
    if k < 0 || k + p.len() > t.len() {
        None
    } else if t.subrange(k, k + p.len()) == p {
        Some(k)
    } else if k >= t.len() {
        None
    } else {
        search_from(t, p, k + 1)
    }
}

/// Relies on twoway's `find_bytes`: the index of the first occurrence of
/// `pattern` in `text`, 0 for an empty pattern, none where it does not occur.
#[verifier::external_body]
fn find_bytes(text: &[u8], pattern: &[u8]) -> (r: Option<usize>)
    ensures
        match r {
            Some(i) => search_from(text@, pattern@, 0) == Some(i as int),
            None => search_from(text@, pattern@, 0) is None,
        },
{
    twoway::find_bytes(text, pattern)
}

/// The fields that a security.txt may hold.
#[derive(Clone, Copy, Debug, PartialEq, Eq, Structural)]
pub enum Field {
    Name,
    ProjectUrl,
    SourceCode,
    SourceRelease,
    SourceRevision,
    Expiry,
    PreferredLanguages,
    Contacts,
    Auditors,
    Encryption,
    Acknowledgements,
    Policy,
}

/// The name under which a field is written.
pub open spec fn field_word(f: Field) -> Seq<char> {
    match f {
        Field::Name => seq!['n', 'a', 'm', 'e'],
        Field::ProjectUrl => seq!['p', 'r', 'o', 'j', 'e', 'c', 't', '_', 'u', 'r', 'l'],
        Field::SourceCode => seq!['s', 'o', 'u', 'r', 'c', 'e', '_', 'c', 'o', 'd', 'e'],
        Field::SourceRelease => seq![
            's', 'o', 'u', 'r', 'c', 'e', '_', 'r', 'e', 'l', 'e', 'a', 's', 'e',
        ],
        Field::SourceRevision => seq![
            's', 'o', 'u', 'r', 'c', 'e', '_', 'r', 'e', 'v', 'i', 's', 'i', 'o', 'n',
        ],
        Field::Expiry => seq!['e', 'x', 'p', 'i', 'r', 'y'],
        Field::PreferredLanguages => seq![
            'p', 'r', 'e', 'f', 'e', 'r', 'r', 'e', 'd', '_', 'l', 'a', 'n', 'g', 'u', 'a', 'g', 'e', 's',
        ],
        Field::Contacts => seq!['c', 'o', 'n', 't', 'a', 'c', 't', 's'],
        Field::Auditors => seq!['a', 'u', 'd', 'i', 't', 'o', 'r', 's'],
        Field::Encryption => seq!['e', 'n', 'c', 'r', 'y', 'p', 't', 'i', 'o', 'n'],
        Field::Acknowledgements => seq![
            'a', 'c', 'k', 'n', 'o', 'w', 'l', 'e', 'd', 'g', 'e', 'm', 'e', 'n', 't', 's',
        ],
        Field::Policy => seq!['p', 'o', 'l', 'i', 'c', 'y'],
    }
}

/// Whether `k` names a field of the format.
pub open spec fn known_field(k: Seq<char>) -> bool {
    exists|f: Field| field_word(f) == k
}

/// The name of a field as a string.
fn field_name(f: Field) -> (r: String)
    ensures
        r@ == field_word(f),
{
    let s = match f {
        Field::Name => "name",
        Field::ProjectUrl => "project_url",
        Field::SourceCode => "source_code",
        Field::SourceRelease => "source_release",
        Field::SourceRevision => "source_revision",
        Field::Expiry => "expiry",
        Field::PreferredLanguages => "preferred_languages",
        Field::Contacts => "contacts",
        Field::Auditors => "auditors",
        Field::Encryption => "encryption",
        Field::Acknowledgements => "acknowledgements",
        Field::Policy => "policy",
    };
    proof {
        reveal_strlit("name");
        reveal_strlit("project_url");
        reveal_strlit("source_code");
        reveal_strlit("source_release");
        reveal_strlit("source_revision");
        reveal_strlit("expiry");
        reveal_strlit("preferred_languages");
        reveal_strlit("contacts");
        reveal_strlit("auditors");
        reveal_strlit("encryption");
        reveal_strlit("acknowledgements");
        reveal_strlit("policy");
        assert(s@ =~= field_word(f));
    }
    s.to_owned()
}

/// The progress of reading the parts: the fields read so far and the name of
/// a field whose value comes next, or the first fault.
pub enum FieldScan {
    Scanning(Seq<(Seq<char>, Seq<char>)>, Option<Seq<char>>),
    Failed(TxtFault),
}

/// Whether some field read so far is named `k`.
pub open spec fn has_key(attrs: Seq<(Seq<char>, Seq<char>)>, k: Seq<char>) -> bool {
    exists|i: int| 0 <= i < attrs.len() && #[trigger] attrs[i].0 == k
}

/// Reads one more part: a value for the pending field, or else the name of
/// the next field, which must not have been read before.
pub open spec fn scan_step(st: FieldScan, part: Seq<u8>) -> FieldScan {
    match st {
        FieldScan::Failed(f) => FieldScan::Failed(f),
        FieldScan::Scanning(attrs, Some(f)) => if valid_utf8(part) {
            FieldScan::Scanning(attrs.push((f, decode_utf8(part))), None)
        } else {
            FieldScan::Failed(TxtFault::InvalidValue(part, f))
        },
        FieldScan::Scanning(attrs, None) => if !valid_utf8(part) {
            FieldScan::Failed(TxtFault::InvalidField(part))
        } else if has_key(attrs, decode_utf8(part)) {
            FieldScan::Failed(TxtFault::DuplicateField(decode_utf8(part)))
        } else {
            FieldScan::Scanning(attrs, Some(decode_utf8(part)))
        },
    }
}

/// The progress after the first `k` parts.
pub open spec fn scan(parts: Seq<Seq<u8>>, k: int) -> FieldScan
    decreases k,
{
    if k <= 0 {
        FieldScan::Scanning(Seq::empty(), None)
    } else {
        scan_step(scan(parts, k - 1), parts[k - 1])
    }
}

/// Once the reading has failed, it stays failed with the same fault.
pub proof fn lemma_scan_failed(parts: Seq<Seq<u8>>, j: int, m: int)
    requires
        0 <= j <= m,
        scan(parts, j) is Failed,
    ensures
        scan(parts, m) == scan(parts, j),
    decreases m - j,
{
    if j < m {
        lemma_scan_failed(parts, j, m - 1);
    }
}

/// The fields, in the order read, as name and value texts.
pub open spec fn attr_texts(v: Seq<(String, String)>) -> Seq<(Seq<char>, Seq<char>)> {
    v.map_values(|p: (String, String)| (p.0@, p.1@))
}

/// Whether a field named `k` was read.
fn has_field(attrs: &Vec<(String, String)>, k: &String) -> (r: bool)
    ensures
        r == has_key(attr_texts(attrs@), k@),
{
    let mut i: usize = 0;
    while i < attrs.len()
        invariant
            0 <= i <= attrs@.len(),
            forall|j: int| 0 <= j < i ==> #[trigger] attrs@[j].0@ != k@,
        decreases attrs@.len() - i,
    {
        if attrs[i].0 == *k {
            assert(attr_texts(attrs@)[i as int].0 == k@);
            return true;
        }
        i = i + 1;
    }
    proof {
        if has_key(attr_texts(attrs@), k@) {
            let j = choose|j: int| 0 <= j < attrs@.len() && #[trigger] attr_texts(attrs@)[j].0 == k@;
            assert(attrs@[j].0@ == k@);
        }
    }
    false
}

/// Reads the parts as alternating field names and values.
fn scan_fields(parts: &Vec<Vec<u8>>) -> (r: Result<Vec<(String, String)>, SecurityTxtError>)
    ensures
        match scan(parts@.map_values(|p: Vec<u8>| p@), parts@.len() as int) {
            FieldScan::Failed(f) => r is Err && r->Err_0@ == f,
            FieldScan::Scanning(attrs, _) => r is Ok && attr_texts(r->Ok_0@) == attrs,
        },
{
    let ghost ps = parts@.map_values(|p: Vec<u8>| p@);
    let mut attrs: Vec<(String, String)> = Vec::new();
    let mut field: Option<String> = None;
    assert(attr_texts(attrs@) =~= Seq::empty());
    let mut k: usize = 0;
    while k < parts.len()
        invariant
            ps == parts@.map_values(|p: Vec<u8>| p@),
            0 <= k <= parts@.len(),
            scan(ps, k as int) == FieldScan::Scanning(attr_texts(attrs@), opt_view(field)),
        decreases parts@.len() - k,
    {
        let part = &parts[k];
        assert(ps[k as int] == part@);
        match field {
            Some(f) => {
                let value = match utf8_text(part.as_slice()) {
                    Some(v) => v,
                    None => {
                        proof {
                            lemma_scan_failed(ps, k + 1, parts@.len() as int);
                        }
                        return Err(SecurityTxtError::InvalidValue(part.clone(), f));
                    },
                };
                attrs.push((f, value));
                field = None;
                proof {
                    assert(attr_texts(attrs@) =~= scan(ps, k + 1)->Scanning_0);
                }
            },
            None => {
                let name = match utf8_text(part.as_slice()) {
                    Some(v) => v,
                    None => {
                        proof {
                            lemma_scan_failed(ps, k + 1, parts@.len() as int);
                        }
                        return Err(SecurityTxtError::InvalidField(part.clone()));
                    },
                };
                if has_field(&attrs, &name) {
                    proof {
                        lemma_scan_failed(ps, k + 1, parts@.len() as int);
                    }
                    return Err(SecurityTxtError::DuplicateField(name));
                }
                field = Some(name);
            },
        }
        k = k + 1;
    }
    Ok(attrs)
}

/// The value of the first field named `k`, from index `i` on.
pub open spec fn lookup(attrs: Seq<(Seq<char>, Seq<char>)>, k: Seq<char>, i: int) -> Option<Seq<char>>
    decreases attrs.len() - i,
{
    if i < 0 || i >= attrs.len() {
        None
    } else if attrs[i].0 == k {
        Some(attrs[i].1)
    } else {
        lookup(attrs, k, i + 1)
    }
}

/// The value of field `f`, if it was read.
pub open spec fn value_of(attrs: Seq<(Seq<char>, Seq<char>)>, f: Field) -> Option<Seq<char>> {
    lookup(attrs, field_word(f), 0)
}

/// The first field name from index `i` on that the format does not know.
pub open spec fn first_unknown(attrs: Seq<(Seq<char>, Seq<char>)>, i: int) -> Option<Seq<char>>
    decreases attrs.len() - i,
{
    if i < 0 || i >= attrs.len() {
        None
    } else if !known_field(attrs[i].0) {
        Some(attrs[i].0)
    } else {
        first_unknown(attrs, i + 1)
    }
}

/// A comma-separated list, each item trimmed; a missing field reads as the
/// empty text, which is one empty item.
pub open spec fn comma_list(v: Option<Seq<char>>) -> Seq<Seq<char>> {
    let text = match v {
        Some(t) => t,
        None => Seq::empty(),
    };
    split_seq(text, ',').map_values(|p: Seq<char>| trimmed(p))
}

/// The first item from index `i` on that is not a contact.
pub open spec fn first_bad_contact(items: Seq<Seq<char>>, i: int) -> Option<Seq<char>>
    decreases items.len() - i,
{
    if i < 0 || i >= items.len() {
        None
    } else if contact_of(items[i]) is None {
        Some(items[i])
    } else {
        first_bad_contact(items, i + 1)
    }
}

/// The security.txt that the fields `attrs` make, or the first fault: a
/// missing name, project URL or contact list, a bad contact, a missing
/// policy, then a field the format does not know.
pub open spec fn record_of(attrs: Seq<(Seq<char>, Seq<char>)>) -> Result<SecurityTxtModel, TxtFault> {
    let contacts = comma_list(value_of(attrs, Field::Contacts));
    if value_of(attrs, Field::Name) is None {
        Err(TxtFault::MissingField(field_word(Field::Name)))
    } else if value_of(attrs, Field::ProjectUrl) is None {
        Err(TxtFault::MissingField(field_word(Field::ProjectUrl)))
    } else if value_of(attrs, Field::Contacts) is None {
        Err(TxtFault::MissingField(field_word(Field::Contacts)))
    } else if first_bad_contact(contacts, 0) is Some {
        Err(TxtFault::InvalidContact(first_bad_contact(contacts, 0)->0))
    } else if value_of(attrs, Field::Policy) is None {
        Err(TxtFault::MissingField(field_word(Field::Policy)))
    } else if first_unknown(attrs, 0) is Some {
        Err(TxtFault::UnknownField(first_unknown(attrs, 0)->0))
    } else {
        Ok(
            SecurityTxtModel {
                name: value_of(attrs, Field::Name)->0,
                project_url: value_of(attrs, Field::ProjectUrl)->0,
                contacts: contacts.map_values(|c: Seq<char>| contact_of(c)->0),
                policy: value_of(attrs, Field::Policy)->0,
                preferred_languages: comma_list(value_of(attrs, Field::PreferredLanguages)),
                source_code: value_of(attrs, Field::SourceCode),
                source_release: value_of(attrs, Field::SourceRelease),
                source_revision: value_of(attrs, Field::SourceRevision),
                encryption: value_of(attrs, Field::Encryption),
                auditors: comma_list(value_of(attrs, Field::Auditors)),
                acknowledgements: value_of(attrs, Field::Acknowledgements),
                expiry: value_of(attrs, Field::Expiry),
            },
        )
    }
}

/// The value of field `f`, if it was read.
fn field_value(attrs: &Vec<(String, String)>, f: Field) -> (r: Option<String>)
    ensures
        opt_view(r) == value_of(attr_texts(attrs@), f),
{
    let name = field_name(f);
    let ghost a = attr_texts(attrs@);
    let mut i: usize = 0;
    while i < attrs.len()
        invariant
            a == attr_texts(attrs@),
            name@ == field_word(f),
            0 <= i <= attrs@.len(),
            value_of(a, f) == lookup(a, field_word(f), i as int),
        decreases attrs@.len() - i,
    {
        if attrs[i].0 == name {
            return Some(attrs[i].1.clone());
        }
        i = i + 1;
    }
    None
}

/// Whether `k` names a field of the format.
fn is_known(k: &String) -> (r: bool)
    ensures
        r == known_field(k@),
{
    let fields = [
        Field::Name,
        Field::ProjectUrl,
        Field::SourceCode,
        Field::SourceRelease,
        Field::SourceRevision,
        Field::Expiry,
        Field::PreferredLanguages,
        Field::Contacts,
        Field::Auditors,
        Field::Encryption,
        Field::Acknowledgements,
        Field::Policy,
    ];
    assert(fields@ =~= seq![
        Field::Name,
        Field::ProjectUrl,
        Field::SourceCode,
        Field::SourceRelease,
        Field::SourceRevision,
        Field::Expiry,
        Field::PreferredLanguages,
        Field::Contacts,
        Field::Auditors,
        Field::Encryption,
        Field::Acknowledgements,
        Field::Policy,
    ]);
    let mut i: usize = 0;
    while i < 12
        invariant
            0 <= i <= 12,
            fields@.len() == 12,
            fields@ == seq![
                Field::Name,
                Field::ProjectUrl,
                Field::SourceCode,
                Field::SourceRelease,
                Field::SourceRevision,
                Field::Expiry,
                Field::PreferredLanguages,
                Field::Contacts,
                Field::Auditors,
                Field::Encryption,
                Field::Acknowledgements,
                Field::Policy,
            ],
            forall|j: int| 0 <= j < i ==> field_word(#[trigger] fields@[j]) != k@,
        decreases 12 - i,
    {
        let name = field_name(fields[i]);
        if name == *k {
            return true;
        }
        i = i + 1;
    }
    proof {
        if known_field(k@) {
            let f = choose|f: Field| field_word(f) == k@;
            let j: int = match f {
                Field::Name => 0,
                Field::ProjectUrl => 1,
                Field::SourceCode => 2,
                Field::SourceRelease => 3,
                Field::SourceRevision => 4,
                Field::Expiry => 5,
                Field::PreferredLanguages => 6,
                Field::Contacts => 7,
                Field::Auditors => 8,
                Field::Encryption => 9,
                Field::Acknowledgements => 10,
                Field::Policy => 11,
            };
            assert(fields@[j] == f);
            assert(field_word(fields@[j]) != k@);
        }
    }
    false
}

/// The first field that the format does not know.
fn unknown_field(attrs: &Vec<(String, String)>) -> (r: Option<String>)
    ensures
        opt_view(r) == first_unknown(attr_texts(attrs@), 0),
{
    let ghost a = attr_texts(attrs@);
    let mut i: usize = 0;
    while i < attrs.len()
        invariant
            a == attr_texts(attrs@),
            0 <= i <= attrs@.len(),
            first_unknown(a, 0) == first_unknown(a, i as int),
        decreases attrs@.len() - i,
    {
        if !is_known(&attrs[i].0) {
            return Some(attrs[i].0.clone());
        }
        i = i + 1;
    }
    None
}

/// Reads each item as a contact; the first that is not one is the fault.
fn parse_contacts(items: &Vec<String>) -> (r: Result<Vec<Contact>, SecurityTxtError>)
    ensures
        match first_bad_contact(texts(items@), 0) {
            Some(c) => r is Err && r->Err_0@ == TxtFault::InvalidContact(c),
            None => r is Ok && r->Ok_0@.map_values(|c: Contact| c@) == texts(items@).map_values(
                |c: Seq<char>| contact_of(c)->0,
            ),
        },
{
    let ghost t = texts(items@);
    let mut out: Vec<Contact> = Vec::new();
    let mut i: usize = 0;
    while i < items.len()
        invariant
            t == texts(items@),
            0 <= i <= items@.len(),
            first_bad_contact(t, 0) == first_bad_contact(t, i as int),
            out@.len() == i,
            forall|j: int| 0 <= j < i ==> (#[trigger] contact_of(t[j])) is Some,
            forall|j: int| 0 <= j < i ==> #[trigger] out@[j]@ == contact_of(t[j])->0,
        decreases items@.len() - i,
    {
        assert(t[i as int] == items@[i as int]@);
        let item = items[i].as_str();
        assert(item@ == t[i as int]);
        let c = match Contact::from_str(item) {
            Ok(c) => c,
            Err(e) => {
                return Err(e);
            },
        };
        assert(contact_of(t[i as int]) is Some);
        assert(c@ == contact_of(t[i as int])->0);
        let ghost before = out@;
        let ghost cv = c;
        out.push(c);
        assert(out@ == before.push(cv));
        assert forall|j: int| 0 <= j < i + 1 implies #[trigger] out@[j]@ == contact_of(t[j])->0 by {
            if j < i {
                assert(out@[j] == before[j]);
                assert(before[j]@ == contact_of(t[j])->0);
            } else {
                assert(out@[j] == cv);
                assert(cv@ == contact_of(t[j])->0);
            }
        }
        i = i + 1;
    }
    assert(out@.map_values(|c: Contact| c@) =~= t.map_values(|c: Seq<char>| contact_of(c)->0));
    Ok(out)
}

/// A comma-separated field's items; a missing field gives one empty item.
fn list_field(attrs: &Vec<(String, String)>, f: Field) -> (r: Vec<String>)
    ensures
        texts(r@) == comma_list(value_of(attr_texts(attrs@), f)),
{
    match field_value(attrs, f) {
        Some(v) => comma_pieces(v.as_str()),
        None => {
            let empty = String::new();
            comma_pieces(empty.as_str())
        },
    }
}

/// Makes the record from the fields read.
fn build_record(attrs: Vec<(String, String)>) -> (r: Result<SecurityTxt, SecurityTxtError>)
    ensures
        match record_of(attr_texts(attrs@)) {
            Ok(m) => r is Ok && r->Ok_0@ == m,
            Err(f) => r is Err && r->Err_0@ == f,
        },
{
    let ghost a = attr_texts(attrs@);
    let name = match field_value(&attrs, Field::Name) {
        Some(v) => v,
        None => {
            return Err(SecurityTxtError::MissingField(field_name(Field::Name)));
        },
    };
    let project_url = match field_value(&attrs, Field::ProjectUrl) {
        Some(v) => v,
        None => {
            return Err(SecurityTxtError::MissingField(field_name(Field::ProjectUrl)));
        },
    };
    let source_code = field_value(&attrs, Field::SourceCode);
    let source_release = field_value(&attrs, Field::SourceRelease);
    let source_revision = field_value(&attrs, Field::SourceRevision);
    let expiry = field_value(&attrs, Field::Expiry);
    let preferred_languages = list_field(&attrs, Field::PreferredLanguages);
    let contact_text = match field_value(&attrs, Field::Contacts) {
        Some(v) => v,
        None => {
            return Err(SecurityTxtError::MissingField(field_name(Field::Contacts)));
        },
    };
    let contact_items = comma_pieces(contact_text.as_str());
    let contacts = match parse_contacts(&contact_items) {
        Ok(c) => c,
        Err(e) => {
            return Err(e);
        },
    };
    let auditors = list_field(&attrs, Field::Auditors);
    let encryption = field_value(&attrs, Field::Encryption);
    let acknowledgements = field_value(&attrs, Field::Acknowledgements);
    let policy = match field_value(&attrs, Field::Policy) {
        Some(v) => v,
        None => {
            return Err(SecurityTxtError::MissingField(field_name(Field::Policy)));
        },
    };
    match unknown_field(&attrs) {
        Some(k) => {
            return Err(SecurityTxtError::UnknownField(k));
        },
        None => {},
    }
    let t = SecurityTxt {
        name,
        project_url,
        contacts,
        policy,
        preferred_languages,
        source_code,
        source_release,
        source_revision,
        encryption,
        auditors,
        acknowledgements,
        expiry,
    };
    proof {
        let m = record_of(a)->Ok_0;
        assert(t@.contacts =~= m.contacts);
    }
    Ok(t)
}

/// The security.txt that `data` holds, read from its start, or the first
/// fault. It must open with the begin marker; its fields run up to the first
/// end marker after that; bytes after the end marker are not read.
pub open spec fn parse_spec(data: Seq<u8>) -> Result<SecurityTxtModel, TxtFault> {
    let begin = SECURITY_TXT_BEGIN.spec_bytes();
    let end = SECURITY_TXT_END.spec_bytes();
    if data.len() < begin.len() || data.subrange(0, begin.len() as int) != begin {
        Err(TxtFault::InvalidSecurityTxtBegin)
    } else {
        let after = data.subrange(begin.len() as int, data.len() as int);
        match search_from(after, end, 0) {
            None => Err(TxtFault::EndNotFound),
            Some(i) => {
                let parts = split_seq(after.subrange(0, i), 0u8);
                match scan(parts, parts.len() as int) {
                    FieldScan::Failed(f) => Err(f),
                    FieldScan::Scanning(attrs, _) => record_of(attrs),
                }
            },
        }
    }
}

/// Whether `data` opens with `prefix`.
fn starts_with(data: &[u8], prefix: &[u8]) -> (r: bool)
    ensures
        r == (data@.len() >= prefix@.len() && data@.subrange(0, prefix@.len() as int) == prefix@),
{
    if data.len() < prefix.len() {
        return false;
    }
    let mut i: usize = 0;
    while i < prefix.len()
        invariant
            data@.len() >= prefix@.len(),
            0 <= i <= prefix@.len(),
            forall|j: int| 0 <= j < i ==> data@[j] == prefix@[j],
        decreases prefix@.len() - i,
    {
        if data[i] != prefix[i] {
            assert(data@.subrange(0, prefix@.len() as int)[i as int] != prefix@[i as int]);
            return false;
        }
        i = i + 1;
    }
    assert(data@.subrange(0, prefix@.len() as int) =~= prefix@);
    true
}

/// Reads a security.txt that starts at the start of `data`; bytes after its
/// end marker are not read.
pub fn parse(data: &[u8]) -> (r: Result<SecurityTxt, SecurityTxtError>)
    ensures
        match parse_spec(data@) {
            Ok(m) => r is Ok && r->Ok_0@ == m,
            Err(f) => r is Err && r->Err_0@ == f,
        },
{
    let begin = SECURITY_TXT_BEGIN.as_bytes();
    let end = SECURITY_TXT_END.as_bytes();
    if !starts_with(data, begin) {
        return Err(SecurityTxtError::InvalidSecurityTxtBegin);
    }
    let after = &data[begin.len()..data.len()];
    let stop = match find_bytes(after, end) {
        Some(i) => i,
        None => {
            return Err(SecurityTxtError::EndNotFound);
        },
    };
    proof {
        let t = after@;
        let e = end@;
        lemma_search_in_range(t, e, 0);
    }
    let content = &after[0..stop];
    let parts = split_zero(content);
    proof {
        assert(parts@.map_values(|p: Vec<u8>| p@) =~= split_seq(content@, 0u8));
    }
    let attrs = match scan_fields(&parts) {
        Ok(a) => a,
        Err(e) => {
            return Err(e);
        },
    };
    build_record(attrs)
}

/// What `search_from` finds lies in the text.
pub proof fn lemma_search_in_range(t: Seq<u8>, p: Seq<u8>, k: int)
    ensures
        search_from(t, p, k) matches Some(i) ==> k <= i && i + p.len() <= t.len(),
    decreases t.len() - k,
{
    if !(k < 0 || k + p.len() > t.len()) && t.subrange(k, k + p.len()) != p && k < t.len() {
        lemma_search_in_range(t, p, k + 1);
    }
}

/// The security.txt that `data` holds somewhere: read from the first begin
/// marker on.
pub open spec fn find_and_parse_spec(data: Seq<u8>) -> Result<SecurityTxtModel, TxtFault> {
    match search_from(data, SECURITY_TXT_BEGIN.spec_bytes(), 0) {
        None => Err(TxtFault::StartNotFound),
        Some(i) => parse_spec(data.subrange(i, data.len() as int)),
    }
}

/// Finds the first security.txt in `data` and reads it.
pub fn find_and_parse(data: &[u8]) -> (r: Result<SecurityTxt, SecurityTxtError>)
    ensures
        match find_and_parse_spec(data@) {
            Ok(m) => r is Ok && r->Ok_0@ == m,
            Err(f) => r is Err && r->Err_0@ == f,
        },
{
    let begin = SECURITY_TXT_BEGIN.as_bytes();
    let start = match find_bytes(data, begin) {
        Some(i) => i,
        None => {
            return Err(SecurityTxtError::StartNotFound);
        },
    };
    proof {
        lemma_search_in_range(data@, begin@, 0);
    }
    let rest = &data[start..data.len()];
    parse(rest)
}

/// Relies on `String::push_str`: appends `t` to `s`.
#[verifier::external_body]
fn push_str(s: &mut String, t: &str)
    ensures
        final(s)@ == old(s)@ + t@,
{
    s.push_str(t)
}

/// The label that a kind of contact is shown with.
pub open spec fn contact_label(t: ContactType) -> Seq<char> {
    match t {
        ContactType::Email => "Email: "@,
        ContactType::Discord => "Discord: "@,
        ContactType::Telegram => "Telegram: "@,
        ContactType::Twitter => "Twitter: "@,
        ContactType::Link => "Link: "@,
        ContactType::Other => "Other: "@,
    }
}

/// A contact as text: its kind, a colon, then its value.
pub open spec fn contact_text(c: (ContactType, Seq<char>)) -> Seq<char> {
    contact_label(c.0) + c.1
}

/// Items as indented lines.
pub open spec fn indented_lines(items: Seq<Seq<char>>) -> Seq<char>
    decreases items.len(),
{
    if items.len() == 0 {
        Seq::empty()
    } else {
        indented_lines(items.drop_last()) + "  "@ + items.last() + "\n"@
    }
}

/// A titled block of indented lines, or nothing for no items.
pub open spec fn list_block(title: Seq<char>, items: Seq<Seq<char>>) -> Seq<char> {
    if items.len() == 0 {
        Seq::empty()
    } else {
        title + indented_lines(items)
    }
}

/// A line with a label, or nothing for no value.
pub open spec fn optional_line(label: Seq<char>, v: Option<Seq<char>>) -> Seq<char> {
    match v {
        Some(t) => label + t + "\n"@,
        None => Seq::empty(),
    }
}

/// The text of a security.txt, field by field.
pub open spec fn security_txt_text(m: SecurityTxtModel) -> Seq<char> {
    "Name: "@ + m.name + "\n"@ + "Project URL: "@ + m.project_url + "\n"@ + list_block(
        "\nContacts:\n"@,
        m.contacts.map_values(|c: (ContactType, Seq<char>)| contact_text(c)),
    ) + "\nPolicy:\n"@ + m.policy + "\n"@ + list_block(
        "\nPreferred Languages:\n"@,
        m.preferred_languages,
    ) + optional_line("Source code: "@, m.source_code) + optional_line(
        "Source release: "@,
        m.source_release,
    ) + optional_line("Source revision: "@, m.source_revision) + optional_line(
        "\nEncryption:\n"@,
        m.encryption,
    ) + list_block("\nAuditors:\n"@, m.auditors) + optional_line(
        "\nAcknowledgements:\n"@,
        m.acknowledgements,
    ) + optional_line("Expires at: "@, m.expiry)
}

impl Contact {
    /// The contact as text, as `Kind: value`.
    pub fn to_text(&self) -> (r: String)
        ensures
            r@ == contact_text(self@),
    {
        let mut out = String::new();
        let value = match self {
            Contact::Email(v) => {
                push_str(&mut out, "Email: ");
                v
            },
            Contact::Discord(v) => {
                push_str(&mut out, "Discord: ");
                v
            },
            Contact::Telegram(v) => {
                push_str(&mut out, "Telegram: ");
                v
            },
            Contact::Twitter(v) => {
                push_str(&mut out, "Twitter: ");
                v
            },
            Contact::Link(v) => {
                push_str(&mut out, "Link: ");
                v
            },
            Contact::Other(v) => {
                push_str(&mut out, "Other: ");
                v
            },
        };
        push_str(&mut out, value.as_str());
        out
    }
}

/// Appends a titled block of indented lines, or nothing for no items.
fn push_list(out: &mut String, title: &str, items: &Vec<String>)
    ensures
        final(out)@ == old(out)@ + list_block(title@, texts(items@)),
{
    if items.len() == 0 {
        assert(texts(items@).len() == 0);
        assert(out@ =~= old(out)@ + list_block(title@, texts(items@)));
        return;
    }
    push_str(out, title);
    let ghost start = out@;
    let mut i: usize = 0;
    while i < items.len()
        invariant
            0 <= i <= items@.len(),
            out@ == start + indented_lines(texts(items@).subrange(0, i as int)),
        decreases items@.len() - i,
    {
        push_str(out, "  ");
        push_str(out, items[i].as_str());
        push_str(out, "\n");
        proof {
            let next = texts(items@).subrange(0, i + 1);
            assert(next.drop_last() =~= texts(items@).subrange(0, i as int));
            assert(out@ =~= start + indented_lines(next));
        }
        i = i + 1;
    }
    assert(texts(items@).subrange(0, i as int) =~= texts(items@));
}

/// Appends a line with a label, or nothing for no value.
fn push_optional(out: &mut String, label: &str, v: &Option<String>)
    ensures
        final(out)@ == old(out)@ + optional_line(label@, opt_view(*v)),
{
    match v {
        Some(t) => {
            push_str(out, label);
            push_str(out, t.as_str());
            push_str(out, "\n");
        },
        None => {
            assert(out@ =~= old(out)@ + Seq::<char>::empty());
        },
    }
}

impl SecurityTxt {
    /// The security.txt as text, one field after another.
    pub fn to_text(&self) -> (r: String)
        ensures
            r@ == security_txt_text(self@),
    {
        let mut out = String::new();
        push_str(&mut out, "Name: ");
        push_str(&mut out, self.name.as_str());
        push_str(&mut out, "\n");
        push_str(&mut out, "Project URL: ");
        push_str(&mut out, self.project_url.as_str());
        push_str(&mut out, "\n");
        let mut contacts: Vec<String> = Vec::new();
        let mut i: usize = 0;
        while i < self.contacts.len()
            invariant
                0 <= i <= self.contacts@.len(),
                contacts@.len() == i,
                forall|j: int|
                    0 <= j < i ==> #[trigger] contacts@[j]@ == contact_text(self.contacts@[j]@),
            decreases self.contacts@.len() - i,
        {
            contacts.push(self.contacts[i].to_text());
            i = i + 1;
        }
        assert(texts(contacts@) =~= self@.contacts.map_values(
            |c: (ContactType, Seq<char>)| contact_text(c),
        ));
        push_list(&mut out, "\nContacts:\n", &contacts);
        push_str(&mut out, "\nPolicy:\n");
        push_str(&mut out, self.policy.as_str());
        push_str(&mut out, "\n");
        push_list(&mut out, "\nPreferred Languages:\n", &self.preferred_languages);
        push_optional(&mut out, "Source code: ", &self.source_code);
        push_optional(&mut out, "Source release: ", &self.source_release);
        push_optional(&mut out, "Source revision: ", &self.source_revision);
        push_optional(&mut out, "\nEncryption:\n", &self.encryption);
        push_list(&mut out, "\nAuditors:\n", &self.auditors);
        push_optional(&mut out, "\nAcknowledgements:\n", &self.acknowledgements);
        push_optional(&mut out, "Expires at: ", &self.expiry);
        assert(out@ =~= security_txt_text(self@));
        out
    }
}

} // verus!
