//! Strings whose length (in unicode code points) is bounded by a const
//! generic, as they travel over the network, and the reduced ascii strings
//! (`[A-Za-z0-9_ ]`) used for resource names.

use vstd::prelude::*;
use vstd::string::StrSliceExecFns;

use crate::pool::{Recyclable, Recycle};
use crate::text::{chars_of, push_char};

verus! {

#[derive(Debug, Clone, Copy, PartialEq, Eq)]
pub enum NetworkStringError {
    /// The unicode char length exceeded the allowed maximum length
    InvalidLength,
}

/// A string that that checks the max __unicode__ (code points) length
/// of a string at deserialization & creation time
#[derive(Debug, Hash, PartialEq, Eq, PartialOrd, Ord)]
pub struct NetworkString<const MAX_LENGTH: usize>(String);

impl<const MAX_LENGTH: usize> View for NetworkString<MAX_LENGTH> {
    type V = Seq<char>;

    closed spec fn view(&self) -> Seq<char> {
        self.0@
    }
}

impl<const MAX_LENGTH: usize> NetworkString<MAX_LENGTH> {
    /// Every network string holds at most `MAX_LENGTH` characters.
    #[verifier::type_invariant]
    closed spec fn within_limit(self) -> bool {
        self.0@.len() <= MAX_LENGTH
    }

    pub fn new(s: String) -> (r: Result<Self, NetworkStringError>)
        ensures
            r is Ok <==> s@.len() <= MAX_LENGTH,
            r matches Ok(v) ==> v@ == s@,
            r matches Err(e) ==> e == NetworkStringError::InvalidLength,
    {
        if s.as_str().unicode_len() > MAX_LENGTH {
            Err(NetworkStringError::InvalidLength)
        } else {
            Ok(Self(s))
        }
    }

    /// Like [`NetworkString::new`], from a string slice.
    pub fn try_from_str(value: &str) -> (r: Result<Self, NetworkStringError>)
        ensures
            r is Ok <==> value@.len() <= MAX_LENGTH,
            r matches Ok(v) ==> v@ == value@,
            r matches Err(e) ==> e == NetworkStringError::InvalidLength,
    {
        Self::new(value.to_owned())
    }

    /// Removes all characters that are over the limmit
    pub fn new_lossy(s: String) -> (r: Self)
        ensures
            r@ == s@.take(if s@.len() <= MAX_LENGTH { s@.len() as int } else { MAX_LENGTH as int }),
    {
        let len = s.as_str().unicode_len();
        let n = if len <= MAX_LENGTH { len } else { MAX_LENGTH };
        let kept = s.as_str().substring_char(0, n);
        Self(kept.to_owned())
    }

    pub fn try_set(&mut self, s: &str) -> (r: Result<(), NetworkStringError>)
        ensures
            r is Ok <==> s@.len() <= MAX_LENGTH,
            r is Ok ==> final(self)@ == s@,
            r matches Err(e) ==> e == NetworkStringError::InvalidLength && final(self)@ == old(
                self,
            )@,
    {
        if s.unicode_len() > MAX_LENGTH {
            Err(NetworkStringError::InvalidLength)
        } else {
            self.0 = s.to_owned();
            Ok(())
        }
    }

    /// The empty network string.
    pub fn empty() -> (r: Self)
        ensures
            r@ == Seq::<char>::empty(),
    {
        Self(String::new())
    }

    /// The held text.
    pub fn as_str(&self) -> (r: &str)
        ensures
            r@ == self@,
            r@.len() <= MAX_LENGTH,
    {
        proof {
            use_type_invariant(self);
        }
        self.0.as_str()
    }

    /// The held text, by value.
    pub fn into_string(self) -> (r: String)
        ensures
            r@ == self@,
    {
        self.0
    }
}

impl<const MAX_LENGTH: usize> Clone for NetworkString<MAX_LENGTH> {
    fn clone(&self) -> (r: Self)
        ensures
            r@ == self@,
    {
        proof {
            use_type_invariant(self);
        }
        Self(self.0.clone())
    }
}

impl<const MAX_LENGTH: usize> Default for NetworkString<MAX_LENGTH> {
    fn default() -> (r: Self)
        ensures
            r@ == Seq::<char>::empty(),
    {
        Self::empty()
    }
}

impl<const MAX_LENGTH: usize> Recyclable for NetworkString<MAX_LENGTH> {
    /// A new string is empty.
    open spec fn is_fresh(&self) -> bool {
        self@ == Seq::<char>::empty()
    }

    fn new() -> (r: Self) {
        Self::empty()
    }

    fn reset(&mut self)
        ensures
            final(self)@ == Seq::<char>::empty(),
    {
        self.0 = String::new();
    }
}

/// A pooled network string.
pub type PoolNetworkString<const MAX_LENGTH: usize> = Recycle<NetworkString<MAX_LENGTH>>;

/// A pooled network string of the thread-safe pool.
pub type MtPoolNetworkString<const MAX_LENGTH: usize> = Recycle<NetworkString<MAX_LENGTH>>;

/// A character of the reduced ascii set: `A-Z`, `a-z`, `0-9`, `_` and space.
pub open spec fn is_reduced_ascii_char(c: char) -> bool {
    ('a' <= c && c <= 'z') || ('A' <= c && c <= 'Z') || ('0' <= c && c <= '9') || c == '_' || c
        == ' '
}

/// The first character of `s` outside the reduced ascii set, if any.
pub open spec fn first_invalid_char(s: Seq<char>) -> Option<char>
    decreases s.len(),
{
    if s.len() == 0 {
        None
    } else if !is_reduced_ascii_char(s[0]) {
        Some(s[0])
    } else {
        first_invalid_char(s.drop_first())
    }
}

/// `first_invalid_char` finds nothing exactly when every character is in the set.
pub proof fn lemma_first_invalid_none(s: Seq<char>)
    ensures
        first_invalid_char(s) is None <==> forall|i: int|
            0 <= i < s.len() ==> is_reduced_ascii_char(#[trigger] s[i]),
    decreases s.len(),
{
    if s.len() > 0 {
        lemma_first_invalid_none(s.drop_first());
        if forall|i: int| 0 <= i < s.len() ==> is_reduced_ascii_char(#[trigger] s[i]) {
            assert forall|i: int| 0 <= i < s.drop_first().len() implies is_reduced_ascii_char(
                #[trigger] s.drop_first()[i],
            ) by {
                assert(s.drop_first()[i] == s[i + 1]);
            }
        }
        if first_invalid_char(s) is None {
            assert forall|i: int| 0 <= i < s.len() implies is_reduced_ascii_char(
                #[trigger] s[i],
            ) by {
                if i > 0 {
                    assert(s[i] == s.drop_first()[i - 1]);
                }
            }
        }
    }
}

#[derive(Debug, Clone, Copy, PartialEq, Eq)]
pub enum ReducedAsciiStringError {
    /// expected a pure ascii string with reduced character set ([A-Z,a-z,0-9] & "_ ")
    InvalidCharacter(char),
}

fn is_reduced_char(c: char) -> (r: bool)
    ensures
        r == is_reduced_ascii_char(c),
{
    ('a' <= c && c <= 'z') || ('A' <= c && c <= 'Z') || ('0' <= c && c <= '9') || c == '_' || c == ' '
}

fn first_invalid(s: &Vec<char>) -> (r: Option<char>)
    ensures
        r == first_invalid_char(s@),
{
    let mut i: usize = 0;
    assert(s@.skip(0) =~= s@);
    while i < s.len()
        invariant
            i <= s.len(),
            first_invalid_char(s@) == first_invalid_char(s@.skip(i as int)),
        decreases s.len() - i,
    {
        let c = s[i];
        assert(s@.skip(i as int)[0] == c);
        assert(s@.skip(i as int).drop_first() =~= s@.skip(i + 1));
        if !(('a' <= c && c <= 'z') || ('A' <= c && c <= 'Z') || ('0' <= c && c <= '9') || c == '_'
            || c == ' ') {
            return Some(c);
        }
        i = i + 1;
    }
    assert(s@.skip(i as int).len() == 0);
    None
}

/// The characters of `s` that are in the reduced ascii set, in order.
pub open spec fn keep_reduced(s: Seq<char>) -> Seq<char>
    decreases s.len(),
{
    if s.len() == 0 {
        s
    } else if is_reduced_ascii_char(s.last()) {
        keep_reduced(s.drop_last()).push(s.last())
    } else {
        keep_reduced(s.drop_last())
    }
}

/// The reduced ascii characters of `s`, cut to the first `max`.
pub open spec fn lossy_reduced(s: Seq<char>, max: nat) -> Seq<char> {
    keep_reduced(s).take(
        if keep_reduced(s).len() > max {
            max as int
        } else {
            keep_reduced(s).len() as int
        },
    )
}

proof fn lemma_keep_reduced_chars(s: Seq<char>)
    ensures
        forall|i: int| 0 <= i < keep_reduced(s).len() ==> is_reduced_ascii_char(#[trigger] keep_reduced(s)[i]),
    decreases s.len(),
{
    if s.len() > 0 {
        lemma_keep_reduced_chars(s.drop_last());
        let k = keep_reduced(s.drop_last());
        if is_reduced_ascii_char(s.last()) {
            assert forall|i: int| 0 <= i < k.push(s.last()).len() implies is_reduced_ascii_char(
                #[trigger] k.push(s.last())[i],
            ) by {
                if i < k.len() {
                    assert(k.push(s.last())[i] == k[i]);
                }
            }
        }
    }
}

/// A string made only of the reduced ascii character set.
#[derive(Debug, Hash, PartialEq, Eq, PartialOrd, Ord)]
pub struct ReducedAsciiString(String);

impl View for ReducedAsciiString {
    type V = Seq<char>;

    closed spec fn view(&self) -> Seq<char> {
        self.0@
    }
}

impl ReducedAsciiString {
    #[verifier::type_invariant]
    closed spec fn only_reduced_chars(self) -> bool {
        first_invalid_char(self.0@) is None
    }

    /// Checks `s` and keeps it if every character is in the reduced set;
    /// otherwise reports the first character that is not.
    pub fn try_from_str(s: &str) -> (r: Result<Self, ReducedAsciiStringError>)
        ensures
            match first_invalid_char(s@) {
                None => r matches Ok(v) && v@ == s@,
                Some(c) => r == Err::<Self, _>(ReducedAsciiStringError::InvalidCharacter(c)),
            },
    {
        match first_invalid(&chars_of(s)) {
            Some(c) => Err(ReducedAsciiStringError::InvalidCharacter(c)),
            None => Ok(Self(s.to_owned())),
        }
    }

    /// The empty string.
    pub fn empty() -> (r: Self)
        ensures
            r@ == Seq::<char>::empty(),
    {
        Self(String::new())
    }

    /// Checks the charset of `s`.
    pub fn is_valid(s: &ReducedAsciiString) -> (r: Result<(), ReducedAsciiStringError>)
        ensures
            match first_invalid_char(s@) {
                None => r is Ok,
                Some(c) => r == Err::<(), _>(ReducedAsciiStringError::InvalidCharacter(c)),
            },
    {
        match first_invalid(&chars_of(s.0.as_str())) {
            Some(c) => Err(ReducedAsciiStringError::InvalidCharacter(c)),
            None => Ok(()),
        }
    }

    /// The characters of `s` that are in the reduced set, in order; the
    /// others are dropped.
    pub fn from_str_lossy(s: &str) -> (r: Self)
        ensures
            r@ == keep_reduced(s@),
    {
        let chars = chars_of(s);
        let mut out = String::new();
        let mut i: usize = 0;
        assert(chars@.take(0) =~= Seq::<char>::empty());
        while i < chars.len()
            invariant
                chars@ == s@,
                i <= chars@.len(),
                out@ == keep_reduced(chars@.take(i as int)),
            decreases chars.len() - i,
        {
            let c = chars[i];
            assert(chars@.take(i + 1).drop_last() =~= chars@.take(i as int));
            assert(chars@.take(i + 1).last() == c);
            if is_reduced_char(c) {
                push_char(&mut out, c);
            }
            i = i + 1;
        }
        assert(chars@.take(chars@.len() as int) =~= chars@);
        proof {
            lemma_keep_reduced_chars(s@);
            lemma_first_invalid_none(out@);
        }
        Self(out)
    }

    /// The number of characters.
    pub fn char_count(&self) -> (r: usize)
        ensures
            r == self@.len(),
    {
        self.0.as_str().unicode_len()
    }

    /// The held text.
    pub fn as_str(&self) -> (r: &str)
        ensures
            r@ == self@,
            forall|i: int| 0 <= i < r@.len() ==> is_reduced_ascii_char(#[trigger] r@[i]),
    {
        proof {
            use_type_invariant(self);
            lemma_first_invalid_none(self.0@);
        }
        self.0.as_str()
    }
}

impl Clone for ReducedAsciiString {
    fn clone(&self) -> (r: Self)
        ensures
            r@ == self@,
    {
        proof {
            use_type_invariant(self);
        }
        Self(self.0.clone())
    }
}

#[derive(Debug, Clone, Copy, PartialEq, Eq)]
pub enum NetworkAsciiStringError {
    /// The ascii string length exceeded the allowed maximum length
    InvalidLength(usize),
    RedcuedAsciiStrErr(ReducedAsciiStringError),
}

/// A string that is purely ascii and additionally is limited to the following
/// char set (see also [`ReducedAsciiString`] for the base limitations):
/// - `MAX_LENGTH`
#[derive(Debug, Hash, PartialOrd, Ord, PartialEq, Eq)]
pub struct NetworkReducedAsciiString<const MAX_LENGTH: usize>(ReducedAsciiString);

impl<const MAX_LENGTH: usize> View for NetworkReducedAsciiString<MAX_LENGTH> {
    type V = Seq<char>;

    closed spec fn view(&self) -> Seq<char> {
        self.0@
    }
}

impl<const MAX_LENGTH: usize> NetworkReducedAsciiString<MAX_LENGTH> {
    #[verifier::type_invariant]
    closed spec fn within_limit(self) -> bool {
        self.0@.len() <= MAX_LENGTH
    }

    pub fn is_valid(s: &ReducedAsciiString) -> (r: Result<(), NetworkAsciiStringError>)
        ensures
            s@.len() > MAX_LENGTH ==> r == Err::<(), _>(
                NetworkAsciiStringError::InvalidLength(MAX_LENGTH),
            ),
            s@.len() <= MAX_LENGTH ==> match first_invalid_char(s@) {
                None => r is Ok,
                Some(c) => r == Err::<(), _>(
                    NetworkAsciiStringError::RedcuedAsciiStrErr(
                        ReducedAsciiStringError::InvalidCharacter(c),
                    ),
                ),
            },
    {
        if s.char_count() > MAX_LENGTH {
            Err(NetworkAsciiStringError::InvalidLength(MAX_LENGTH))
        } else {
            match ReducedAsciiString::is_valid(s) {
                Err(e) => Err(NetworkAsciiStringError::RedcuedAsciiStrErr(e)),
                Ok(()) => Ok(()),
            }
        }
    }

    pub fn new(s: &str) -> (r: Result<Self, NetworkAsciiStringError>)
        ensures
            match first_invalid_char(s@) {
                Some(c) => r == Err::<Self, _>(
                    NetworkAsciiStringError::RedcuedAsciiStrErr(
                        ReducedAsciiStringError::InvalidCharacter(c),
                    ),
                ),
                None => if s@.len() > MAX_LENGTH {
                    r == Err::<Self, _>(NetworkAsciiStringError::InvalidLength(MAX_LENGTH))
                } else {
                    r matches Ok(v) && v@ == s@
                },
            },
    {
        let s = match ReducedAsciiString::try_from_str(s) {
            Err(e) => {
                return Err(NetworkAsciiStringError::RedcuedAsciiStrErr(e));
            },
            Ok(s) => s,
        };
        match Self::is_valid(&s) {
            Err(e) => Err(e),
            Ok(()) => Ok(Self(s)),
        }
    }

    /// The empty string.
    pub fn empty() -> (r: Self)
        ensures
            r@ == Seq::<char>::empty(),
    {
        Self(ReducedAsciiString::empty())
    }

    /// The characters of `s` that are in the reduced set, in order, cut to
    /// the first `MAX_LENGTH`.
    pub fn from_str_lossy(s: &str) -> (r: Self)
        ensures
            r@ == lossy_reduced(s@, MAX_LENGTH as nat),
    {
        let reduced = ReducedAsciiString::from_str_lossy(s);
        let chars = chars_of(reduced.as_str());
        let n: usize = if chars.len() > MAX_LENGTH {
            MAX_LENGTH
        } else {
            chars.len()
        };
        let mut out = String::new();
        let mut i: usize = 0;
        while i < n
            invariant
                chars@ == keep_reduced(s@),
                forall|j: int| 0 <= j < chars@.len() ==> is_reduced_ascii_char(#[trigger] chars@[j]),
                n <= chars@.len(),
                n <= MAX_LENGTH,
                i <= n,
                out@ == chars@.take(i as int),
            decreases n - i,
        {
            push_char(&mut out, chars[i]);
            i = i + 1;
            assert(out@ =~= chars@.take(i as int));
        }
        proof {
            assert forall|j: int| 0 <= j < out@.len() implies is_reduced_ascii_char(#[trigger] out@[j]) by {
                assert(out@[j] == chars@[j]);
            }
            lemma_first_invalid_none(out@);
        }
        Self(ReducedAsciiString(out))
    }

    /// The held text.
    pub fn as_str(&self) -> (r: &str)
        ensures
            r@ == self@,
            r@.len() <= MAX_LENGTH,
            forall|i: int| 0 <= i < r@.len() ==> is_reduced_ascii_char(#[trigger] r@[i]),
    {
        proof {
            use_type_invariant(self);
        }
        self.0.as_str()
    }

    /// The held reduced ascii string, by value.
    pub fn into_reduced(self) -> (r: ReducedAsciiString)
        ensures
            r@ == self@,
    {
        self.0
    }
}

impl<const MAX_LENGTH: usize> Clone for NetworkReducedAsciiString<MAX_LENGTH> {
    fn clone(&self) -> (r: Self)
        ensures
            r@ == self@,
    {
        proof {
            use_type_invariant(self);
        }
        Self(self.0.clone())
    }
}

impl<const MAX_LENGTH: usize> Default for NetworkReducedAsciiString<MAX_LENGTH> {
    fn default() -> (r: Self)
        ensures
            r@ == Seq::<char>::empty(),
    {
        Self::empty()
    }
}

impl<const MAX_LENGTH: usize> Recyclable for NetworkReducedAsciiString<MAX_LENGTH> {
    /// A new string is empty.
    open spec fn is_fresh(&self) -> bool {
        self@ == Seq::<char>::empty()
    }

    fn new() -> (r: Self) {
        Self::empty()
    }

    fn reset(&mut self)
        ensures
            final(self)@ == Seq::<char>::empty(),
    {
        self.0 = ReducedAsciiString::empty();
    }
}

} // verus!
