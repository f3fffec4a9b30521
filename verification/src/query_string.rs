//! SQL strings that are safe to execute on a database connection.

use std::borrow::Borrow;
use std::hash::{Hash, Hasher};
use std::sync::Arc;
use vstd::prelude::*;

verus! {

/// Where the text of a [`QueryString`] came from.
#[derive(Clone, Copy, Debug, PartialEq, Eq, Structural)]
pub enum Provenance {
    /// A string literal of the program.
    Literal,
    /// A string built at run time, asserted safe, that the value owns.
    Owned,
    /// A string built at run time, asserted safe, that the value borrows.
    Borrowed,
}

/// `Clone` of a boxed string slice: std documents that the new box holds a
/// copy of the contents of the old one.
pub assume_specification[ <Box<str> as Clone>::clone ](b: &Box<str>) -> (res: Box<str>)
    ensures
        res@ == b@,
;

/// Calls `From<&str>` of `Box<str>`, which copies the string slice into a
/// new boxed slice.
#[verifier::external_body]
fn box_str(s: &str) -> (b: Box<str>)
    ensures
        b@ == s@,
{
    Box::from(s)
}

/// Calls `==` of `str`, which compares the contents of two string slices.
#[verifier::external_body]
pub(crate) fn str_eq(a: &str, b: &str) -> (r: bool)
    ensures
        r == (a@ == b@),
{
    a == b
}

/// Calls `Hash::hash` of `str`, which feeds the string slice to the hasher.
#[verifier::external_body]
fn hash_str<H: Hasher>(s: &str, state: &mut H) {
    s.hash(state)
}

/// A SQL string that is safe to execute on a database connection.
///
/// A "safe" query string is one that is unlikely to contain a SQL injection
/// vulnerability: in practice, a string type that is unlikely to contain
/// dynamic data or user input. `&'static str` is the only string type that
/// implements this trait by default. For other string types, use
/// [`AssertQuerySafe`] to assert this property.
pub trait QuerySafeStr<'a>: Sized {
    /// The SQL text that the value holds.
    spec fn query_text(&self) -> Seq<char>;

    /// Where the resulting query string has its text from.
    spec fn query_provenance(&self) -> Provenance;

    /// Wrap `self` as a [`QueryString`].
    fn into_query_string(self) -> (q: QueryString<'a>)
        ensures
            q@ == self.query_text(),
            q.provenance() == self.query_provenance(),
    ;
}

/// Assert that a query string is safe to execute on a database connection.
///
/// Using this type means that the caller has made sure that the string does
/// not contain a SQL injection vulnerability: if it was built dynamically or
/// from user input, the caller has sanitized that input.
pub struct AssertQuerySafe<T>(pub T);

/// A SQL string that is ready to execute on a database connection.
///
/// This is essentially `Cow<'a, str>`, but one that can be constructed from
/// additional types without copying. It cannot be constructed directly: see
/// [`QuerySafeStr`].
#[derive(Debug)]
pub struct QueryString<'a>(Repr<'a>);

#[derive(Debug)]
enum Repr<'a> {
    Slice(&'a str),
    // Remembers that the string is static, so that it is never copied.
    Static(&'static str),
    Owned(String),
    Boxed(Box<str>),
    Arced(Arc<str>),
}

impl<'a> View for QueryString<'a> {
    type V = Seq<char>;

    closed spec fn view(&self) -> Seq<char> {
        match self.0 {
            Repr::Slice(s) => s@,
            Repr::Static(s) => s@,
            Repr::Owned(s) => s@,
            Repr::Boxed(s) => s@,
            Repr::Arced(s) => (*s)@,
        }
    }
}

impl<'a> QueryString<'a> {
    /// Where the text came from.
    pub closed spec fn provenance(&self) -> Provenance {
        match self.0 {
            Repr::Slice(_) => Provenance::Borrowed,
            Repr::Static(_) => Provenance::Literal,
            Repr::Owned(_) => Provenance::Owned,
            Repr::Boxed(_) => Provenance::Owned,
            Repr::Arced(_) => Provenance::Owned,
        }
    }

    /// Whether the value holds its text without borrowing it.
    pub open spec fn is_static(&self) -> bool {
        self.provenance() != Provenance::Borrowed
    }

    /// What erasing the borrow of `before` may give: the same text, held
    /// without a borrow; the very same value if `before` borrowed nothing,
    /// and an owned copy otherwise.
    pub open spec fn erases_borrow(before: QueryString<'_>, after: QueryString<'_>) -> bool {
        &&& after@ == before@
        &&& after.is_static()
        &&& before.is_static() ==> after == before
        &&& !before.is_static() ==> after.provenance() == Provenance::Owned
    }

    /// Erasing the borrow a second time changes nothing: the value that the
    /// first erasure gave comes back, with the text that it started from.
    pub proof fn lemma_into_static_idempotent(
        q: QueryString<'_>,
        once: QueryString<'_>,
        twice: QueryString<'_>,
    )
        requires
            Self::erases_borrow(q, once),
            Self::erases_borrow(once, twice),
        ensures
            twice == once,
            twice@ == q@,
            twice.provenance() == once.provenance(),
    {
    }

    /// Erase the borrow in `self` by copying the string to a new allocation
    /// if necessary.
    ///
    /// This copies the string if `self` borrows it. In all other cases the
    /// value is handed back as it is.
    #[inline]
    pub fn into_static(self) -> (q: QueryString<'static>)
        ensures
            Self::erases_borrow(self, q),
    {
        QueryString(
            match self.0 {
                Repr::Slice(s) => Repr::Boxed(box_str(s)),
                Repr::Static(s) => Repr::Static(s),
                Repr::Owned(s) => Repr::Owned(s),
                Repr::Boxed(s) => Repr::Boxed(s),
                Repr::Arced(s) => Repr::Arced(s),
            },
        )
    }

    /// Borrow the inner query string.
    #[inline]
    pub fn as_str(&self) -> (s: &str)
        ensures
            s@ == self@,
    {
        match &self.0 {
            Repr::Slice(s) => s,
            Repr::Static(s) => s,
            Repr::Owned(s) => s.as_str(),
            Repr::Boxed(s) => s,
            Repr::Arced(s) => s,
        }
    }
}

impl<'a> Clone for QueryString<'a> {
    /// The copy holds the same text, from the same kind of source.
    fn clone(&self) -> (q: Self)
        ensures
            q@ == self@,
            q.provenance() == self.provenance(),
    {
        QueryString(
            match &self.0 {
                Repr::Slice(s) => Repr::Slice(*s),
                Repr::Static(s) => Repr::Static(*s),
                Repr::Owned(s) => Repr::Owned(s.clone()),
                Repr::Boxed(s) => Repr::Boxed(s.clone()),
                Repr::Arced(s) => Repr::Arced(s.clone()),
            },
        )
    }
}

impl<'a> PartialEq for QueryString<'a> {
    /// Two query strings are equal when their texts are, wherever the texts
    /// came from.
    fn eq(&self, other: &Self) -> (r: bool) {
        str_eq(self.as_str(), other.as_str())
    }
}

impl<'a> vstd::std_specs::cmp::PartialEqSpecImpl for QueryString<'a> {
    open spec fn obeys_eq_spec() -> bool {
        true
    }

    open spec fn eq_spec(&self, other: &Self) -> bool {
        self@ == other@
    }
}

impl<'a> Eq for QueryString<'a> {

}

impl<'a> PartialEq<str> for QueryString<'a> {
    fn eq(&self, other: &str) -> (r: bool) {
        str_eq(self.as_str(), other)
    }
}

impl<'a> vstd::std_specs::cmp::PartialEqSpecImpl<str> for QueryString<'a> {
    open spec fn obeys_eq_spec() -> bool {
        true
    }

    open spec fn eq_spec(&self, other: &str) -> bool {
        self@ == other@
    }
}

impl<'a, 'b> PartialEq<&'b str> for QueryString<'a> {
    fn eq(&self, other: &&'b str) -> (r: bool) {
        str_eq(self.as_str(), *other)
    }
}

impl<'a, 'b> vstd::std_specs::cmp::PartialEqSpecImpl<&'b str> for QueryString<'a> {
    open spec fn obeys_eq_spec() -> bool {
        true
    }

    open spec fn eq_spec(&self, other: &&'b str) -> bool {
        self@ == other@
    }
}

impl<'a> PartialEq<String> for QueryString<'a> {
    fn eq(&self, other: &String) -> (r: bool) {
        str_eq(self.as_str(), other.as_str())
    }
}

impl<'a> vstd::std_specs::cmp::PartialEqSpecImpl<String> for QueryString<'a> {
    open spec fn obeys_eq_spec() -> bool {
        true
    }

    open spec fn eq_spec(&self, other: &String) -> bool {
        self@ == other@
    }
}

impl<'a> AsRef<str> for QueryString<'a> {
    #[inline]
    fn as_ref(&self) -> (s: &str)
        ensures
            s@ == self@,
    {
        self.as_str()
    }
}

impl<'a> Borrow<str> for QueryString<'a> {
    #[inline]
    fn borrow(&self) -> (s: &str)
        ensures
            str::view(s) == self@,
    {
        self.as_str()
    }
}

impl<'a> Hash for QueryString<'a> {
    /// Feeds the text to the hasher as `str` does, so that a query string
    /// and its text hash alike.
    fn hash<H: Hasher>(&self, state: &mut H) {
        hash_str(self.as_str(), state)
    }
}

impl QuerySafeStr<'static> for &'static str {
    open spec fn query_text(&self) -> Seq<char> {
        (*self)@
    }

    open spec fn query_provenance(&self) -> Provenance {
        Provenance::Literal
    }

    #[inline]
    fn into_query_string(self) -> (q: QueryString<'static>) {
        QueryString(Repr::Static(self))
    }
}

/// A borrowed string slice that the caller asserts to be safe. Erasing the
/// borrow later copies the string.
impl<'a> QuerySafeStr<'a> for AssertQuerySafe<&'a str> {
    open spec fn query_text(&self) -> Seq<char> {
        self.0@
    }

    open spec fn query_provenance(&self) -> Provenance {
        Provenance::Borrowed
    }

    #[inline]
    fn into_query_string(self) -> (q: QueryString<'a>) {
        QueryString(Repr::Slice(self.0))
    }
}

/// A borrowed `String` that the caller asserts to be safe. Erasing the
/// borrow later copies the string.
impl<'a> QuerySafeStr<'a> for AssertQuerySafe<&'a String> {
    open spec fn query_text(&self) -> Seq<char> {
        self.0@
    }

    open spec fn query_provenance(&self) -> Provenance {
        Provenance::Borrowed
    }

    #[inline]
    fn into_query_string(self) -> (q: QueryString<'a>) {
        QueryString(Repr::Slice(self.0.as_str()))
    }
}

impl QuerySafeStr<'static> for AssertQuerySafe<String> {
    open spec fn query_text(&self) -> Seq<char> {
        self.0@
    }

    open spec fn query_provenance(&self) -> Provenance {
        Provenance::Owned
    }

    #[inline]
    fn into_query_string(self) -> (q: QueryString<'static>) {
        QueryString(Repr::Owned(self.0))
    }
}

impl QuerySafeStr<'static> for AssertQuerySafe<Box<str>> {
    open spec fn query_text(&self) -> Seq<char> {
        self.0@
    }

    open spec fn query_provenance(&self) -> Provenance {
        Provenance::Owned
    }

    #[inline]
    fn into_query_string(self) -> (q: QueryString<'static>) {
        QueryString(Repr::Boxed(self.0))
    }
}

// Not implemented for `Rc<str>`: a query string can be sent to another thread.
impl QuerySafeStr<'static> for AssertQuerySafe<Arc<str>> {
    open spec fn query_text(&self) -> Seq<char> {
        (*self.0)@
    }

    open spec fn query_provenance(&self) -> Provenance {
        Provenance::Owned
    }

    #[inline]
    fn into_query_string(self) -> (q: QueryString<'static>) {
        QueryString(Repr::Arced(self.0))
    }
}

impl<'a> QuerySafeStr<'a> for QueryString<'a> {
    open spec fn query_text(&self) -> Seq<char> {
        self@
    }

    open spec fn query_provenance(&self) -> Provenance {
        self.provenance()
    }

    #[inline]
    fn into_query_string(self) -> (q: QueryString<'a>)
        ensures
            q == self,
    {
        self
    }
}

} // verus!
