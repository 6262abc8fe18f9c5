//! Small verified text building blocks used by the pipeline: appending a
//! character, decimal rendering of counters, path joining, and normalizing
//! path separators to the forward-slash form the concat demuxer requires.

use vstd::prelude::*;
use vstd::string::*;

verus! {

/// Relies on `String::push` of std: appends exactly the given character at
/// the end of the string.
#[verifier::external_body]
pub fn push_char(s: &mut String, c: char)
    ensures
        final(s)@ == old(s)@.push(c),
{
    s.push(c)
}

/// The decimal digit character for a value below ten.
pub open spec fn digit_char(d: int) -> char {
    if d == 0 {
        '0'
    } else if d == 1 {
        '1'
    } else if d == 2 {
        '2'
    } else if d == 3 {
        '3'
    } else if d == 4 {
        '4'
    } else if d == 5 {
        '5'
    } else if d == 6 {
        '6'
    } else if d == 7 {
        '7'
    } else if d == 8 {
        '8'
    } else {
        '9'
    }
}

/// The usual decimal rendering of a natural number, most significant digit
/// first, with no leading zeros (a single `'0'` for zero).
pub open spec fn dec_spec(n: nat) -> Seq<char>
    decreases n,
{
    if n < 10 {
        seq![digit_char(n as int)]
    } else {
        dec_spec(n / 10).push(digit_char((n % 10) as int))
    }
}

fn digit_to_char(d: u64) -> (c: char)
    requires
        d < 10,
    ensures
        c == digit_char(d as int),
{
    if d == 0 {
        '0'
    } else if d == 1 {
        '1'
    } else if d == 2 {
        '2'
    } else if d == 3 {
        '3'
    } else if d == 4 {
        '4'
    } else if d == 5 {
        '5'
    } else if d == 6 {
        '6'
    } else if d == 7 {
        '7'
    } else if d == 8 {
        '8'
    } else {
        '9'
    }
}

/// Renders `n` in decimal.
pub fn u64_to_dec(n: u64) -> (s: String)
    ensures
        s@ == dec_spec(n as nat),
    decreases n,
{
    if n < 10 {
        let mut s = String::new();
        let c = digit_to_char(n);
        push_char(&mut s, c);
        proof {
            assert(Seq::<char>::empty().push(digit_char(n as int)) =~= seq![
                digit_char(n as int),
            ]);
        }
        s
    } else {
        let mut s = u64_to_dec(n / 10);
        let c = digit_to_char(n % 10);
        push_char(&mut s, c);
        s
    }
}

/// A count of milliseconds rendered as the fractional-seconds argument the
/// transcoder expects: whole seconds, a dot, and exactly three digits.
pub open spec fn ms_arg_spec(ms: u64) -> Seq<char> {
    dec_spec((ms / 1000) as nat) + "."@ + seq![
        digit_char((ms as int % 1000) / 100),
        digit_char((ms as int % 100) / 10),
        digit_char(ms as int % 10),
    ]
}

/// Renders milliseconds as seconds with three decimal places.
pub fn ms_to_seconds_arg(ms: u64) -> (s: String)
    ensures
        s@ == ms_arg_spec(ms),
{
    let mut s = u64_to_dec(ms / 1000);
    s.append(".");
    let c1 = digit_to_char((ms % 1000) / 100);
    let c2 = digit_to_char((ms % 100) / 10);
    let c3 = digit_to_char(ms % 10);
    push_char(&mut s, c1);
    push_char(&mut s, c2);
    push_char(&mut s, c3);
    proof {
        assert(s@ =~= ms_arg_spec(ms));
    }
    s
}

/// A decimal rendering never holds a newline.
pub proof fn lemma_dec_no_newline(n: nat)
    ensures
        forall|i: int| 0 <= i < dec_spec(n).len() ==> #[trigger] dec_spec(n)[i] != '\n',
    decreases n,
{
    if n < 10 {
        assert(dec_spec(n)[0] == digit_char(n as int));
    } else {
        lemma_dec_no_newline(n / 10);
        assert forall|i: int| 0 <= i < dec_spec(n).len() implies #[trigger] dec_spec(n)[i]
            != '\n' by {
            if i < dec_spec(n / 10).len() {
                assert(dec_spec(n)[i] == dec_spec(n / 10)[i]);
            } else {
                assert(dec_spec(n)[i] == digit_char((n % 10) as int));
            }
        }
    }
}

/// `dir` and `name` joined with a single forward slash.
pub open spec fn join_spec(dir: Seq<char>, name: Seq<char>) -> Seq<char> {
    dir + "/"@ + name
}

pub fn join_path(dir: &str, name: &str) -> (r: String)
    ensures
        r@ == join_spec(dir@, name@),
{
    let mut r = String::from_str(dir);
    r.append("/");
    r.append(name);
    r
}

/// Every backslash replaced by a forward slash; all other characters kept.
pub open spec fn normalize_spec(s: Seq<char>) -> Seq<char> {
    Seq::new(s.len(), |i: int| if s[i] == '\\' { '/' } else { s[i] })
}

/// Normalization never introduces a newline.
pub proof fn lemma_normalize_no_newline(s: Seq<char>)
    requires
        forall|i: int| 0 <= i < s.len() ==> s[i] != '\n',
    ensures
        forall|i: int|
            0 <= i < normalize_spec(s).len() ==> #[trigger] normalize_spec(s)[i] != '\n',
{
    assert forall|i: int| 0 <= i < normalize_spec(s).len() implies #[trigger] normalize_spec(s)[i]
        != '\n' by {
        assert(s[i] != '\n');
    }
}

/// Rewrites a path into the forward-slash form, character by character.
pub fn normalize_separators(s: &str) -> (r: String)
    ensures
        r@ == normalize_spec(s@),
{
    let len = s.unicode_len();
    let mut r = String::new();
    let mut i: usize = 0;
    while i < len
        invariant
            len == s@.len(),
            i <= len,
            r@ == normalize_spec(s@).take(i as int),
        decreases len - i,
    {
        let c = s.get_char(i);
        if c == '\\' {
            push_char(&mut r, '/');
        } else {
            push_char(&mut r, c);
        }
        proof {
            assert(normalize_spec(s@).take(i + 1 as int) =~= normalize_spec(s@).take(
                i as int,
            ).push(normalize_spec(s@)[i as int]));
        }
        i = i + 1;
    }
    proof {
        assert(normalize_spec(s@).take(len as int) =~= normalize_spec(s@));
    }
    r
}

} // verus!
