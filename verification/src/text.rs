//! Small text utilities: string equality, and verified decimal formatting
//! used by the code generators.

use vstd::prelude::*;

verus! {

/// Relies on str's PartialEq: equal exactly when the character sequences are.
#[verifier::external_body]
pub fn str_eq(a: &str, b: &str) -> (r: bool)
    ensures
        r == (a@ == b@),
{
    a == b
}

/// The digit character for one value below ten.
pub open spec fn spec_digit(d: nat) -> char {
    if d == 0 {
        '0'
    } else if d == 1 {
        '1'
    } else if d == 2 {
        '2'
    } else if d == 3 {
        '3'
    } else if d == 4 {
        '4'
    } else if d == 5 {
        '5'
    } else if d == 6 {
        '6'
    } else if d == 7 {
        '7'
    } else if d == 8 {
        '8'
    } else {
        '9'
    }
}

/// Decimal digits of `n`, most significant first.
pub open spec fn spec_decimal(n: nat) -> Seq<char>
    decreases n,
{
    if n < 10 {
        seq![spec_digit(n)]
    } else {
        spec_decimal(n / 10) + seq![spec_digit(n % 10)]
    }
}

fn digit_str(d: u64) -> (r: &'static str)
    requires
        d < 10,
    ensures
        r@ =~= seq![spec_digit(d as nat)],
{
    proof {
        reveal_strlit("0");
        reveal_strlit("1");
        reveal_strlit("2");
        reveal_strlit("3");
        reveal_strlit("4");
        reveal_strlit("5");
        reveal_strlit("6");
        reveal_strlit("7");
        reveal_strlit("8");
        reveal_strlit("9");
    }
    if d == 0 {
        "0"
    } else if d == 1 {
        "1"
    } else if d == 2 {
        "2"
    } else if d == 3 {
        "3"
    } else if d == 4 {
        "4"
    } else if d == 5 {
        "5"
    } else if d == 6 {
        "6"
    } else if d == 7 {
        "7"
    } else if d == 8 {
        "8"
    } else {
        "9"
    }
}

/// Appends the decimal form of `n` to `out`.
pub fn append_decimal(out: &mut String, n: u64)
    ensures
        final(out)@ == old(out)@ + spec_decimal(n as nat),
    decreases n,
{
    if n < 10 {
        out.append(digit_str(n));
    } else {
        append_decimal(out, n / 10);
        out.append(digit_str(n % 10));
        proof {
            assert(out@ =~= old(out)@ + spec_decimal(n as nat));
        }
    }
}

/// The decimal form of `n` as a fresh string.
pub fn decimal_string(n: u64) -> (r: String)
    ensures
        r@ == spec_decimal(n as nat),
{
    let mut s = String::new();
    append_decimal(&mut s, n);
    proof {
        assert(s@ =~= spec_decimal(n as nat));
    }
    s
}

/// A documentation string as it may stand inside a line doc comment: each
/// embedded line break continues the comment on a fresh `/// ` line, so a
/// multi-line description never escapes the comment.
pub open spec fn spec_doc_body(s: Seq<char>) -> Seq<char>
    decreases s.len(),
{
    if s.len() == 0 {
        Seq::empty()
    } else {
        (if s[0] == '\n' {
            "\n/// "@
        } else {
            seq![s[0]]
        }) + spec_doc_body(s.skip(1))
    }
}

proof fn lemma_doc_body_concat(a: Seq<char>, b: Seq<char>)
    ensures
        spec_doc_body(a + b) == spec_doc_body(a) + spec_doc_body(b),
    decreases a.len(),
{
    if a.len() == 0 {
        assert(a + b =~= b);
        assert(spec_doc_body(a) + spec_doc_body(b) =~= spec_doc_body(b));
    } else {
        assert((a + b)[0] == a[0]);
        assert((a + b).skip(1) =~= a.skip(1) + b);
        lemma_doc_body_concat(a.skip(1), b);
        assert(spec_doc_body(a + b) =~= spec_doc_body(a) + spec_doc_body(b));
    }
}

proof fn lemma_doc_body_plain(t: Seq<char>)
    requires
        forall|k: int| 0 <= k < t.len() ==> t[k] != '\n',
    ensures
        spec_doc_body(t) == t,
    decreases t.len(),
{
    if t.len() > 0 {
        lemma_doc_body_plain(t.skip(1));
        assert(seq![t[0]] + t.skip(1) =~= t);
    }
}

/// Appends `doc` to `out` with every line break continued as a doc-comment
/// line.
pub fn append_doc_body(out: &mut String, doc: &str)
    ensures
        final(out)@ == old(out)@ + spec_doc_body(doc@),
{
    let n = doc.unicode_len();
    let mut st: usize = 0;
    let mut i: usize = 0;
    proof {
        assert(doc@.take(0) =~= Seq::<char>::empty());
    }
    while i < n
        invariant
            n == doc@.len(),
            0 <= st <= i <= n,
            forall|k: int| st <= k < i ==> doc@[k] != '\n',
            out@ == old(out)@ + spec_doc_body(doc@.take(st as int)),
        decreases n - i,
    {
        let c = doc.get_char(i);
        if c == '\n' {
            let chunk = doc.substring_char(st, i);
            out.append(chunk);
            out.append("\n/// ");
            proof {
                let mid = doc@.subrange(st as int, i as int);
                let nl = doc@.subrange(i as int, i + 1);
                lemma_doc_body_plain(mid);
                lemma_doc_body_concat(doc@.take(st as int), mid);
                lemma_doc_body_concat(doc@.take(st as int) + mid, nl);
                assert(doc@.take(st as int) + mid =~= doc@.take(i as int));
                assert(doc@.take(i as int) + nl =~= doc@.take(i + 1));
                assert(nl[0] == '\n');
                assert(nl.skip(1) =~= Seq::<char>::empty());
                assert("\n/// "@ + Seq::<char>::empty() =~= "\n/// "@);
                assert(spec_doc_body(Seq::<char>::empty()) == Seq::<char>::empty());
                assert(spec_doc_body(nl) =~= "\n/// "@);
                assert(out@ =~= old(out)@ + spec_doc_body(doc@.take(i + 1)));
            }
            st = i + 1;
        }
        i = i + 1;
    }
    let tail = doc.substring_char(st, n);
    out.append(tail);
    proof {
        let rest = doc@.subrange(st as int, n as int);
        lemma_doc_body_plain(rest);
        lemma_doc_body_concat(doc@.take(st as int), rest);
        assert(doc@.take(st as int) + rest =~= doc@);
        assert(out@ =~= old(out)@ + spec_doc_body(doc@));
    }
}

} // verus!
