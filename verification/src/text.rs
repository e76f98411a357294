//! Verified text building blocks: decimal rendering of integers, escaping of
//! string contents for inclusion in a rendered document, and escaping of
//! path tokens for slash-delimited structural pointers.

use vstd::prelude::*;
use vstd::string::StrSliceExecFns;
use vstd::string::StringExecFns;

verus! {

/// The decimal digit character for `d`.
pub open spec fn spec_digit(d: int) -> char {
    "0123456789"@[d]
}

/// Decimal representation of a non-negative integer, most significant digit
/// first, without leading zeros (`0` is rendered as `0`).
pub open spec fn spec_udec(n: nat) -> Seq<char>
    decreases n,
{
    if n < 10 {
        seq![spec_digit(n as int)]
    } else {
        spec_udec(n / 10) + seq![spec_digit((n % 10) as int)]
    }
}

/// Decimal representation of an integer, with a leading minus sign when
/// negative.
pub open spec fn spec_idec(i: int) -> Seq<char> {
    if i < 0 {
        seq!['-'] + spec_udec((-i) as nat)
    } else {
        spec_udec(i as nat)
    }
}

fn append_digit(out: &mut String, d: u64)
    requires
        d < 10,
    ensures
        final(out)@ == old(out)@ + seq![spec_digit(d as int)],
{
    proof {
        reveal_strlit("0123456789");
    }
    let piece = "0123456789".substring_char(d as usize, d as usize + 1);
    out.append(piece);
    proof {
        assert(piece@ =~= seq![spec_digit(d as int)]);
    }
}

/// Appends the decimal rendering of a non-negative integer.
pub fn append_u64(out: &mut String, n: u64)
    ensures
        final(out)@ == old(out)@ + spec_udec(n as nat),
    decreases n,
{
    if n < 10 {
        append_digit(out, n);
    } else {
        append_u64(out, n / 10);
        append_digit(out, n % 10);
        proof {
            assert(old(out)@ + spec_udec((n / 10) as nat) + seq![
                spec_digit((n % 10) as int),
            ] =~= old(out)@ + spec_udec(n as nat));
        }
    }
}

/// Renders an integer in decimal.
pub fn render_i64(i: i64) -> (s: String)
    ensures
        s@ == spec_idec(i as int),
{
    let mut s = String::new();
    if i >= 0 {
        append_u64(&mut s, i as u64);
        proof {
            assert(s@ =~= spec_idec(i as int));
        }
    } else {
        let magnitude: u64 = if i == i64::MIN {
            9223372036854775808u64
        } else {
            (-i) as u64
        };
        s.append("-");
        append_u64(&mut s, magnitude);
        proof {
            reveal_strlit("-");
            assert("-"@ =~= seq!['-']);
            assert(s@ =~= spec_idec(i as int));
        }
    }
    s
}

/// How one character of a string is escaped in a rendered document: quotes
/// and backslashes take a backslash prefix, all else stands as it is.
pub open spec fn spec_escape_char(c: char) -> Seq<char> {
    if c == '"' {
        seq!['\\', '"']
    } else if c == '\\' {
        seq!['\\', '\\']
    } else {
        seq![c]
    }
}

/// String contents escaped for inclusion between quotes.
pub open spec fn spec_escape(s: Seq<char>) -> Seq<char>
    decreases s,
{
    if s.len() == 0 {
        Seq::empty()
    } else {
        spec_escape_char(s.first()) + spec_escape(s.drop_first())
    }
}

/// A string rendered as a quoted, escaped document token.
pub open spec fn spec_quote(s: Seq<char>) -> Seq<char> {
    seq!['"'] + spec_escape(s) + seq!['"']
}

proof fn lemma_escape_snoc(s: Seq<char>, c: char)
    ensures
        spec_escape(s.push(c)) == spec_escape(s) + spec_escape_char(c),
    decreases s,
{
    if s.len() == 0 {
        assert(s.push(c).drop_first() =~= Seq::<char>::empty());
        assert(s.push(c).first() == c);
        assert(spec_escape(Seq::<char>::empty()) =~= Seq::<char>::empty());
        assert(spec_escape(s.push(c)) =~= spec_escape_char(c) + spec_escape(
            Seq::<char>::empty(),
        ));
        assert(spec_escape(s.push(c)) =~= spec_escape(s) + spec_escape_char(c));
    } else {
        assert(s.push(c).len() > 0);
        assert(s.push(c).first() == s.first());
        assert(s.push(c).drop_first() =~= s.drop_first().push(c));
        lemma_escape_snoc(s.drop_first(), c);
        assert(spec_escape(s.push(c)) =~= spec_escape_char(s.first()) + spec_escape(
            s.drop_first().push(c),
        ));
        assert(spec_escape(s.push(c)) =~= spec_escape(s) + spec_escape_char(c));
    }
}

/// Appends the escaped contents of `s` to `out`.
#[verifier::loop_isolation(false)]
pub fn append_escaped(out: &mut String, s: &str)
    ensures
        final(out)@ == old(out)@ + spec_escape(s@),
{
    let n = s.unicode_len();
    let mut i: usize = 0;
    proof {
        assert(s@.subrange(0, 0) =~= Seq::<char>::empty());
        assert(out@ + spec_escape(s@.subrange(0, 0)) =~= out@);
    }
    let ghost base = out@;
    while i < n
        invariant
            i <= n,
            out@ == base + spec_escape(s@.subrange(0, i as int)),
        decreases n - i,
    {
        let c = s.get_char(i);
        if c == '"' {
            out.append("\\\"");
            proof {
                reveal_strlit("\\\"");
            }
        } else if c == '\\' {
            out.append("\\\\");
            proof {
                reveal_strlit("\\\\");
            }
        } else {
            let piece = s.substring_char(i, i + 1);
            out.append(piece);
        }
        proof {
            assert(s@.subrange(0, i + 1) =~= s@.subrange(0, i as int).push(s@[i as int]));
            lemma_escape_snoc(s@.subrange(0, i as int), s@[i as int]);
            assert(out@ =~= base + spec_escape(s@.subrange(0, i + 1)));
        }
        i = i + 1;
    }
    proof {
        assert(s@.subrange(0, n as int) =~= s@);
    }
}

/// Appends `s` between quotes, with its contents escaped.
pub fn append_quoted(out: &mut String, s: &str)
    ensures
        final(out)@ == old(out)@ + spec_quote(s@),
{
    proof {
        reveal_strlit("\"");
    }
    out.append("\"");
    append_escaped(out, s);
    out.append("\"");
    proof {
        assert("\""@ =~= seq!['"']);
        assert(out@ =~= old(out)@ + spec_quote(s@));
    }
}

/// How one character of a pointer token is escaped: `~` becomes `~0` and `/`
/// becomes `~1`, as structural pointers demand.
pub open spec fn spec_escape_pointer_char(c: char) -> Seq<char> {
    if c == '~' {
        seq!['~', '0']
    } else if c == '/' {
        seq!['~', '1']
    } else {
        seq![c]
    }
}

/// A pointer token with its reserved characters escaped.
pub open spec fn spec_escape_pointer(s: Seq<char>) -> Seq<char>
    decreases s,
{
    if s.len() == 0 {
        Seq::empty()
    } else {
        spec_escape_pointer_char(s.first()) + spec_escape_pointer(s.drop_first())
    }
}

/// A pointer extended by one token: a slash, then the escaped token.
pub open spec fn spec_pointer_step(path: Seq<char>, token: Seq<char>) -> Seq<char> {
    path + seq!['/'] + spec_escape_pointer(token)
}

proof fn lemma_escape_pointer_snoc(s: Seq<char>, c: char)
    ensures
        spec_escape_pointer(s.push(c)) == spec_escape_pointer(s) + spec_escape_pointer_char(c),
    decreases s,
{
    if s.len() == 0 {
        assert(s.push(c).drop_first() =~= Seq::<char>::empty());
        assert(s.push(c).first() == c);
        assert(spec_escape_pointer(Seq::<char>::empty()) =~= Seq::<char>::empty());
        assert(spec_escape_pointer(s.push(c)) =~= spec_escape_pointer_char(c)
            + spec_escape_pointer(Seq::<char>::empty()));
        assert(spec_escape_pointer(s.push(c)) =~= spec_escape_pointer(s)
            + spec_escape_pointer_char(c));
    } else {
        assert(s.push(c).len() > 0);
        assert(s.push(c).first() == s.first());
        assert(s.push(c).drop_first() =~= s.drop_first().push(c));
        lemma_escape_pointer_snoc(s.drop_first(), c);
        assert(spec_escape_pointer(s.push(c)) =~= spec_escape_pointer_char(s.first())
            + spec_escape_pointer(s.drop_first().push(c)));
        assert(spec_escape_pointer(s.push(c)) =~= spec_escape_pointer(s)
            + spec_escape_pointer_char(c));
    }
}

/// The pointer `path` extended by the token `token`.
#[verifier::loop_isolation(false)]
pub fn pointer_step(path: &str, token: &str) -> (r: String)
    ensures
        r@ == spec_pointer_step(path@, token@),
{
    let mut out = path.to_owned();
    proof {
        reveal_strlit("/");
    }
    out.append("/");
    let n = token.unicode_len();
    let mut i: usize = 0;
    proof {
        assert("/"@ =~= seq!['/']);
        assert(token@.subrange(0, 0) =~= Seq::<char>::empty());
        assert(out@ =~= path@ + seq!['/'] + spec_escape_pointer(token@.subrange(0, 0)));
    }
    while i < n
        invariant
            i <= n,
            out@ == path@ + seq!['/'] + spec_escape_pointer(token@.subrange(0, i as int)),
        decreases n - i,
    {
        let c = token.get_char(i);
        if c == '~' {
            out.append("~0");
            proof {
                reveal_strlit("~0");
            }
        } else if c == '/' {
            out.append("~1");
            proof {
                reveal_strlit("~1");
            }
        } else {
            let piece = token.substring_char(i, i + 1);
            out.append(piece);
        }
        proof {
            assert(token@.subrange(0, i + 1) =~= token@.subrange(0, i as int).push(
                token@[i as int],
            ));
            lemma_escape_pointer_snoc(token@.subrange(0, i as int), token@[i as int]);
            assert(out@ =~= path@ + seq!['/'] + spec_escape_pointer(token@.subrange(0, i + 1)));
        }
        i = i + 1;
    }
    proof {
        assert(token@.subrange(0, n as int) =~= token@);
    }
    out
}

} // verus!
