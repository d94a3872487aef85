//! Quoting and unquoting of command arguments: `escape` wraps a string that
//! holds a space, `"` or `\` in double quotes (escaping `"` and `\`), and
//! `unescape` parses such a quoted string back.

use vstd::prelude::*;

use std::borrow::Cow;

use crate::text::{chars_of, push_char, string_of};

verus! {

/// A character that must be escaped inside a quoted string.
pub open spec fn is_escaped_char(c: char) -> bool {
    c == '"' || c == '\\'
}

/// Whether a string must be wrapped in quotes by [`escape`]: it holds a
/// space, a `"` or a `\`.
pub open spec fn needs_quotes(s: Seq<char>) -> bool {
    exists|i: int| 0 <= i < s.len() && (is_escaped_char(#[trigger] s[i]) || s[i] == ' ')
}

/// The escaped form of one character inside quotes.
pub open spec fn escape_char(c: char) -> Seq<char> {
    if c == '"' {
        seq!['\\', '"']
    } else if c == '\\' {
        seq!['\\', '\\']
    } else {
        seq![c]
    }
}

/// The escaped form of a whole string inside quotes (without the quotes).
pub open spec fn escape_body(s: Seq<char>) -> Seq<char>
    decreases s.len(),
{
    if s.len() == 0 {
        Seq::empty()
    } else {
        escape_char(s[0]) + escape_body(s.drop_first())
    }
}

/// What [`escape`] returns for a string.
pub open spec fn spec_escape(s: Seq<char>) -> Seq<char> {
    if needs_quotes(s) {
        seq!['"'] + escape_body(s) + seq!['"']
    } else {
        s
    }
}

/// Escape `"`, `\` or ` ` characters
pub fn escape(s: &str) -> (r: Cow<'_, str>)
    ensures
        r@ == spec_escape(s@),
        !needs_quotes(s@) ==> r == Cow::<'_, str>::Borrowed(s),
{
    let chars = chars_of(s);
    let mut quote = false;
    let mut needs_per_char_quote = false;
    let mut i: usize = 0;
    while i < chars.len()
        invariant_except_break
            i <= chars.len(),
            !needs_per_char_quote,
            quote <==> exists|j: int| 0 <= j < i && chars@[j] == ' ',
            forall|j: int| 0 <= j < i ==> !is_escaped_char(#[trigger] chars@[j]),
        ensures
            needs_per_char_quote ==> quote && exists|j: int|
                0 <= j < chars@.len() && is_escaped_char(#[trigger] chars@[j]),
            !needs_per_char_quote ==> (forall|j: int|
                0 <= j < chars@.len() ==> !is_escaped_char(#[trigger] chars@[j])) && (quote
                <==> exists|j: int| 0 <= j < chars@.len() && chars@[j] == ' '),
        decreases chars.len() - i,
    {
        let c = chars[i];
        if c == '"' || c == '\\' {
            needs_per_char_quote = true;
            quote = true;
            break;
        }
        if c == ' ' {
            quote = true;
        }
        i = i + 1;
    }
    proof {
        if needs_quotes(s@) {
            let j = choose|j: int| 0 <= j < s@.len() && (is_escaped_char(#[trigger] s@[j]) || s@[j] == ' ');
            assert(chars@[j] == s@[j]);
        }
        if needs_per_char_quote || quote {
            if !needs_per_char_quote {
                let j = choose|j: int| 0 <= j < chars@.len() && chars@[j] == ' ';
                assert(is_escaped_char(s@[j]) || s@[j] == ' ');
            } else {
                let j = choose|j: int| 0 <= j < chars@.len() && is_escaped_char(#[trigger] chars@[j]);
                assert(is_escaped_char(s@[j]) || s@[j] == ' ');
            }
        }
    }
    if !quote {
        return Cow::Borrowed(s);
    }
    if !needs_per_char_quote {
        let mut output = String::new();
        push_char(&mut output, '"');
        output.append(s);
        push_char(&mut output, '"');
        proof {
            lemma_escape_body_plain(s@);
        }
        return Cow::Owned(output);
    }
    let mut out: Vec<char> = Vec::new();
    out.push('"');
    let mut k: usize = 0;
    while k < chars.len()
        invariant
            k <= chars.len(),
            chars@ == s@,
            out@ == seq!['"'] + escape_body(chars@.take(k as int)),
        decreases chars.len() - k,
    {
        let c = chars[k];
        proof {
            lemma_escape_body_concat(chars@.take(k as int), seq![c]);
            assert(chars@.take(k as int) + seq![c] =~= chars@.take(k + 1));
            assert(escape_body(seq![c]) =~= escape_char(c)) by {
                assert(seq![c].drop_first() =~= Seq::<char>::empty());
                reveal_with_fuel(escape_body, 2);
            }
        }
        if c == '"' {
            out.push('\\');
            out.push('"');
        } else if c == '\\' {
            out.push('\\');
            out.push('\\');
        } else {
            out.push(c);
        }
        k = k + 1;
        assert(out@ =~= seq!['"'] + escape_body(chars@.take(k as int)));
    }
    out.push('"');
    assert(chars@.take(chars.len() as int) =~= chars@);
    assert(out@ =~= seq!['"'] + escape_body(s@) + seq!['"']);
    Cow::Owned(string_of(&out))
}

/// The escape body distributes over concatenation.
pub proof fn lemma_escape_body_concat(a: Seq<char>, b: Seq<char>)
    ensures
        escape_body(a + b) == escape_body(a) + escape_body(b),
    decreases a.len(),
{
    if a.len() == 0 {
        assert(a + b =~= b);
        assert(escape_body(a) + escape_body(b) =~= escape_body(b));
    } else {
        assert((a + b).drop_first() =~= a.drop_first() + b);
        lemma_escape_body_concat(a.drop_first(), b);
        assert((a + b)[0] == a[0]);
        assert(escape_body(a + b) =~= escape_char(a[0]) + (escape_body(a.drop_first())
            + escape_body(b)));
        assert(escape_body(a) + escape_body(b) =~= escape_char(a[0]) + escape_body(
            a.drop_first(),
        ) + escape_body(b));
    }
}

/// Without `"` and `\` the escape body is the string itself.
pub proof fn lemma_escape_body_plain(s: Seq<char>)
    requires
        forall|j: int| 0 <= j < s.len() ==> !is_escaped_char(#[trigger] s[j]),
    ensures
        escape_body(s) == s,
    decreases s.len(),
{
    if s.len() > 0 {
        assert forall|j: int| 0 <= j < s.drop_first().len() implies !is_escaped_char(
            #[trigger] s.drop_first()[j],
        ) by {
            assert(s.drop_first()[j] == s[j + 1]);
        }
        lemma_escape_body_plain(s.drop_first());
        assert(!is_escaped_char(s[0]));
        assert(escape_body(s) =~= s);
    }
}

/// Error thrown by [`unescape`].
#[derive(Debug, Clone, PartialEq, Eq)]
pub enum UnescapeError {
    InvalidEscape { escape: String, index: usize, string: String },
}

/// Puts a character in front of a successful parse result.
pub open spec fn prepend_ok(c: char, r: Result<Seq<char>, (Seq<char>, int)>) -> Result<
    Seq<char>,
    (Seq<char>, int),
> {
    match r {
        Ok(t) => Ok(seq![c] + t),
        Err(e) => Err(e),
    }
}

/// Puts a prefix in front of a successful parse result.
pub open spec fn prefix_ok(p: Seq<char>, r: Result<Seq<char>, (Seq<char>, int)>) -> Result<
    Seq<char>,
    (Seq<char>, int),
> {
    match r {
        Ok(t) => Ok(p + t),
        Err(e) => Err(e),
    }
}

/// Parses the characters `s`, which start at character index `base` of the
/// whole input, with `in_quote` telling whether a double quote is open.
/// An error carries the offending escape and its character index.
pub open spec fn unescape_from(s: Seq<char>, base: int, in_quote: bool) -> Result<
    Seq<char>,
    (Seq<char>, int),
>
    decreases s.len(),
{
    if s.len() == 0 {
        Ok(Seq::empty())
    } else {
        let c = s[0];
        if in_quote && c == '"' {
            unescape_from(s.drop_first(), base + 1, false)
        } else if in_quote && c == '\\' {
            if s.len() == 1 {
                Err((seq!['\\'], base))
            } else {
                let c2 = s[1];
                if c2 == '\\' || c2 == '"' || c2 == ' ' {
                    prepend_ok(c2, unescape_from(s.skip(2), base + 2, true))
                } else {
                    Err((seq!['\\', c2], base + 1))
                }
            }
        } else if !in_quote && c == '"' {
            unescape_from(s.drop_first(), base + 1, true)
        } else {
            prepend_ok(c, unescape_from(s.drop_first(), base + 1, in_quote))
        }
    }
}

/// What [`unescape`] computes for a string: the unquoted text, or the
/// invalid escape and its character index.
pub open spec fn spec_unescape(s: Seq<char>) -> Result<Seq<char>, (Seq<char>, int)> {
    unescape_from(s, 0, false)
}

proof fn lemma_prefix_prepend(p: Seq<char>, c: char, r: Result<Seq<char>, (Seq<char>, int)>)
    ensures
        prefix_ok(p, prepend_ok(c, r)) == prefix_ok(p.push(c), r),
{
    if let Ok(t) = r {
        assert(p + (seq![c] + t) =~= p.push(c) + t);
    }
}

/// Parse an escaped quoted string, e.g. one produced by [`escape`].
pub fn unescape(s: &str) -> (r: Result<String, UnescapeError>)
    ensures
        match r {
            Ok(v) => spec_unescape(s@) == Ok::<Seq<char>, (Seq<char>, int)>(v@),
            Err(UnescapeError::InvalidEscape { escape, index, string }) => {
                &&& spec_unescape(s@) == Err::<Seq<char>, (Seq<char>, int)>((escape@, index as int))
                &&& string@ == s@
            },
        },
{
    let chars = chars_of(s);
    let mut in_double_quote = false;
    let mut res: Vec<char> = Vec::new();
    let mut i: usize = 0;
    proof {
        assert(chars@.skip(0) =~= chars@);
        assert(prefix_ok(Seq::empty(), unescape_from(chars@, 0, false)) == unescape_from(
            chars@,
            0,
            false,
        )) by {
            if let Ok(t) = unescape_from(chars@, 0, false) {
                assert(Seq::<char>::empty() + t =~= t);
            }
        }
    }
    while i < chars.len()
        invariant
            i <= chars.len(),
            chars@ == s@,
            spec_unescape(s@) == prefix_ok(
                res@,
                unescape_from(chars@.skip(i as int), i as int, in_double_quote),
            ),
        decreases chars.len() - i,
    {
        let index = i;
        let c = chars[i];
        let ghost rest = chars@.skip(i as int);
        assert(rest[0] == c);
        assert(rest.drop_first() =~= chars@.skip(i + 1));
        if in_double_quote {
            if c == '"' {
                in_double_quote = false;
                i = i + 1;
                continue;
            }
            if c == '\\' {
                if i + 1 >= chars.len() {
                    let mut e = String::new();
                    push_char(&mut e, c);
                    assert(e@ =~= seq!['\\']);
                    return Err(
                        UnescapeError::InvalidEscape { escape: e, index, string: String::from_str(s) },
                    );
                }
                let index2 = i + 1;
                let c2 = chars[i + 1];
                assert(rest[1] == c2);
                assert(rest.skip(2) =~= chars@.skip(i + 2));
                if c2 == '\\' || c2 == '"' || c2 == ' ' {
                    proof {
                        lemma_prefix_prepend(
                            res@,
                            c2,
                            unescape_from(chars@.skip(i + 2), i + 2, true),
                        );
                    }
                    res.push(c2);
                    i = i + 2;
                    continue;
                } else {
                    let mut e = String::new();
                    push_char(&mut e, c);
                    push_char(&mut e, c2);
                    assert(e@ =~= seq!['\\', c2]);
                    return Err(
                        UnescapeError::InvalidEscape {
                            escape: e,
                            index: index2,
                            string: String::from_str(s),
                        },
                    );
                }
            }
        } else if c == '"' {
            in_double_quote = true;
            i = i + 1;
            continue;
        }
        proof {
            lemma_prefix_prepend(
                res@,
                c,
                unescape_from(chars@.skip(i + 1), i + 1, in_double_quote),
            );
        }
        res.push(c);
        i = i + 1;
    }
    proof {
        assert(chars@.skip(i as int) =~= Seq::<char>::empty());
        assert(res@ + Seq::<char>::empty() =~= res@);
    }
    Ok(string_of(&res))
}

/// Without a double quote, unquoted parsing hands the input back.
proof fn lemma_unescape_unquoted(s: Seq<char>, base: int)
    requires
        forall|j: int| 0 <= j < s.len() ==> s[j] != '"',
    ensures
        unescape_from(s, base, false) == Ok::<Seq<char>, (Seq<char>, int)>(s),
    decreases s.len(),
{
    if s.len() > 0 {
        assert forall|j: int| 0 <= j < s.drop_first().len() implies s.drop_first()[j] != '"' by {
            assert(s.drop_first()[j] == s[j + 1]);
        }
        lemma_unescape_unquoted(s.drop_first(), base + 1);
        assert(seq![s[0]] + s.drop_first() =~= s);
    } else {
        assert(s =~= Seq::<char>::empty());
    }
}

/// Inside quotes, an escaped body followed by the closing quote parses back
/// to the original text.
proof fn lemma_unescape_body(t: Seq<char>, rest: Seq<char>, base: int)
    ensures
        unescape_from(escape_body(t) + seq!['"'] + rest, base, true) == prefix_ok(
            t,
            unescape_from(rest, base + escape_body(t).len() + 1, false),
        ),
    decreases t.len(),
{
    let x = escape_body(t) + seq!['"'] + rest;
    if t.len() == 0 {
        assert(x =~= seq!['"'] + rest);
        assert(x.drop_first() =~= rest);
        if let Ok(u) = unescape_from(rest, base + 1, false) {
            assert(t + u =~= u);
        }
    } else {
        let c = t[0];
        let t2 = t.drop_first();
        lemma_unescape_body(t2, rest, base + escape_char(c).len());
        let y = escape_body(t2) + seq!['"'] + rest;
        assert(x =~= escape_char(c) + y);
        let r = unescape_from(rest, base + escape_char(c).len() + escape_body(t2).len() + 1, false);
        assert(escape_body(t).len() == escape_char(c).len() + escape_body(t2).len());
        if c == '"' || c == '\\' {
            assert(x[0] == '\\');
            assert(x[1] == c);
            assert(x.skip(2) =~= y);
        } else {
            assert(x[0] == c);
            assert(x.drop_first() =~= y);
        }
        assert(unescape_from(x, base, true) == prepend_ok(c, prefix_ok(t2, r)));
        if let Ok(u) = r {
            assert(seq![c] + (t2 + u) =~= t + u);
        }
    }
}

/// Unescaping what [`escape`] produced gives the original string back.
pub proof fn lemma_unescape_escape(s: Seq<char>)
    ensures
        spec_unescape(spec_escape(s)) == Ok::<Seq<char>, (Seq<char>, int)>(s),
{
    if needs_quotes(s) {
        let e = seq!['"'] + escape_body(s) + seq!['"'];
        lemma_unescape_body(s, Seq::empty(), 1);
        assert(e.drop_first() =~= escape_body(s) + seq!['"'] + Seq::<char>::empty());
        assert(e[0] == '"');
        assert(s + Seq::<char>::empty() =~= s);
    } else {
        assert forall|j: int| 0 <= j < s.len() implies s[j] != '"' by {
            if s[j] == '"' {
                assert(is_escaped_char(s[j]));
            }
        }
        lemma_unescape_unquoted(s, 0);
    }
}

/// Where an invalid escape is reported: `escape` is a lone `\` ending the
/// input, or a `\` and the character after it, which is not one that can be
/// escaped; `index` is the position of the last character of `escape`.
pub open spec fn invalid_escape_at(s: Seq<char>, escape: Seq<char>, index: int) -> bool {
    &&& 0 <= index < s.len()
    &&& ((escape == seq!['\\'] && index == s.len() - 1 && s[index] == '\\') || (index >= 1
        && s[index - 1] == '\\' && escape == seq!['\\', s[index]] && s[index] != '\\'
        && s[index] != '"' && s[index] != ' '))
}

proof fn lemma_unescape_from_error(s: Seq<char>, base: int, in_quote: bool)
    ensures
        unescape_from(s, base, in_quote) matches Err((e, k)) ==> invalid_escape_at(s, e, k - base),
        (forall|j: int| 0 <= j < s.len() ==> s[j] != '\\') ==> unescape_from(s, base, in_quote) is Ok,
    decreases s.len(),
{
    if s.len() > 0 {
        let c = s[0];
        let t1 = s.drop_first();
        lemma_unescape_from_error(t1, base + 1, false);
        lemma_unescape_from_error(t1, base + 1, true);
        lemma_unescape_from_error(t1, base + 1, in_quote);
        assert forall|j: int| 0 <= j < t1.len() implies t1[j] == s[j + 1] by {}
        if s.len() >= 2 {
            let t2 = s.skip(2);
            lemma_unescape_from_error(t2, base + 2, true);
            assert forall|j: int| 0 <= j < t2.len() implies t2[j] == s[j + 2] by {}
        }
        if (forall|j: int| 0 <= j < s.len() ==> s[j] != '\\') {
            assert(s[0] != '\\');
            assert(forall|j: int| 0 <= j < t1.len() ==> t1[j] != '\\') by {
                assert forall|j: int| 0 <= j < t1.len() implies t1[j] != '\\' by {
                    assert(t1[j] == s[j + 1]);
                }
            }
        }
    }
}

/// When [`unescape`] fails, the escape it reports is there in the input: a
/// lone `\` at the end, or a `\` before a character that cannot be escaped,
/// with the index of the escape's last character. A string without a `\`
/// never fails.
pub proof fn lemma_unescape_errors(s: Seq<char>)
    ensures
        spec_unescape(s) matches Err((e, k)) ==> invalid_escape_at(s, e, k),
        (forall|j: int| 0 <= j < s.len() ==> s[j] != '\\') ==> spec_unescape(s) is Ok,
{
    lemma_unescape_from_error(s, 0, false);
}

} // verus!
