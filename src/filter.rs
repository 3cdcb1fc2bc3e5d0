//! The escape-sequence filter: raw terminal text to readable text.
//!
//! It removes the ANSI control sequences `ESC [ m` and `ESC [ K` with at most
//! two parameters of one or two digits each (colour and erase-line), then the
//! prompt literal `bash-3.2$`. Cursor movement, OSC sequences, parameters of
//! three or more digits and sequences split across calls are left alone.
use vstd::prelude::*;
use crate::text::{chars_of, contains, contains_chars, occurs_at, occurs_at_index, slice_chars, string_of};

verus! {

/// The pattern of the control sequences that the filter removes.
pub const CSI_PATTERN: &'static str = r"\x1B\[([0-9]{1,2}(;[0-9]{1,2})?)?[mK]";

/// A decimal digit.
pub open spec fn is_digit(c: char) -> bool {
    '0' <= c && c <= '9'
}

/// One or two digits.
pub open spec fn is_number(p: Seq<char>) -> bool {
    1 <= p.len() <= 2 && forall|i: int| 0 <= i < p.len() ==> is_digit(#[trigger] p[i])
}

/// No parameter, one number, or two numbers separated by `;`.
pub open spec fn is_parameters(p: Seq<char>) -> bool {
    ||| p.len() == 0
    ||| is_number(p)
    ||| exists|k: int|
        0 <= k < p.len() && p[k] == ';' && is_number(#[trigger] p.take(k)) && is_number(p.skip(k + 1))
}

/// `t` is exactly one control sequence that the filter removes.
pub open spec fn is_csi(t: Seq<char>) -> bool {
    &&& t.len() >= 3
    &&& t[0] == '\x1b'
    &&& t[1] == '['
    &&& (t.last() == 'm' || t.last() == 'K')
    &&& is_parameters(t.subrange(2, t.len() - 1))
}

/// `s` starts with such a sequence of `n` characters.
pub open spec fn csi_of_len(s: Seq<char>, n: int) -> bool {
    n <= s.len() && is_csi(s.take(n))
}

/// The length of the control sequence that `s` starts with, or 0 when it starts
/// with none. A sequence is three to eight characters long, and at most one
/// length fits: the final `m` or `K` cannot stand among the parameters.
pub open spec fn csi_len(s: Seq<char>) -> int {
    if csi_of_len(s, 3) {
        3
    } else if csi_of_len(s, 4) {
        4
    } else if csi_of_len(s, 5) {
        5
    } else if csi_of_len(s, 6) {
        6
    } else if csi_of_len(s, 7) {
        7
    } else if csi_of_len(s, 8) {
        8
    } else {
        0
    }
}

/// `s` with every control sequence removed, scanning from the left.
pub open spec fn csi_removed(s: Seq<char>) -> Seq<char>
    decreases s.len(),
{
    if s.len() == 0 {
        s
    } else if csi_len(s) > 0 {
        csi_removed(s.skip(csi_len(s)))
    } else {
        seq![s[0]] + csi_removed(s.drop_first())
    }
}

/// No control sequence starts anywhere in `s`.
pub open spec fn no_csi(s: Seq<char>) -> bool {
    forall|i: int| 0 <= i < s.len() ==> csi_len(#[trigger] s.skip(i)) == 0
}

/// The prompt literal that the filter removes.
pub open spec fn prompt() -> Seq<char> {
    seq!['b', 'a', 's', 'h', '-', '3', '.', '2', '$']
}

/// One left-to-right pass that removes every occurrence of the prompt; an
/// occurrence that the pass brings together is left for the next pass.
pub open spec fn prompt_removed(s: Seq<char>) -> Seq<char>
    decreases s.len(),
{
    if s.len() == 0 {
        s
    } else if occurs_at(s, prompt(), 0) {
        prompt_removed(s.skip(prompt().len() as int))
    } else {
        seq![s[0]] + prompt_removed(s.drop_first())
    }
}

/// `s` with passes of prompt removal repeated until no prompt is left.
pub open spec fn prompt_stripped(s: Seq<char>) -> Seq<char>
    decreases s.len(),
    via prompt_stripped_decreases
{
    if contains(s, prompt()) {
        prompt_stripped(prompt_removed(s))
    } else {
        s
    }
}

/// A pass never lengthens the text, and shortens it when it holds the prompt.
pub proof fn lemma_pass_shortens(s: Seq<char>)
    ensures
        prompt_removed(s).len() <= s.len(),
        contains(s, prompt()) ==> prompt_removed(s).len() < s.len(),
    decreases s.len(),
{
    if s.len() > 0 {
        if occurs_at(s, prompt(), 0) {
            lemma_pass_shortens(s.skip(9));
        } else {
            let rest = s.drop_first();
            lemma_pass_shortens(rest);
            if contains(s, prompt()) {
                let k = choose|k: int| occurs_at(s, prompt(), k);
                assert(k != 0);
                assert(rest.subrange(k - 1, k - 1 + 9) =~= s.subrange(k, k + 9));
                assert(occurs_at(rest, prompt(), k - 1));
            }
        }
    }
}

#[via_fn]
proof fn prompt_stripped_decreases(s: Seq<char>) {
    lemma_pass_shortens(s);
}

/// The readable text of raw terminal text `s`.
pub open spec fn cleaned(s: Seq<char>) -> Seq<char> {
    prompt_stripped(csi_removed(s))
}

/// Relies on `regex::Regex::new` and `Regex::replace_all`: `pattern` is
/// `CSI_PATTERN`, which compiles, and `replace_all` with an empty replacement
/// drops every leftmost-first, non-overlapping match. A match of that pattern
/// is exactly an `is_csi` run; one starts only at `ESC` and holds no other `ESC`.
#[verifier::external_body]
fn remove_pattern(pattern: &str, input: &str) -> (r: String)
    requires
        pattern@ == CSI_PATTERN@,
    ensures
        r@ == csi_removed(input@),
{
    regex::Regex::new(pattern).unwrap().replace_all(input, "").into_owned()
}

/// The prompt's characters.
fn prompt_chars() -> (r: Vec<char>)
    ensures
        r@ == prompt(),
{
    let r: Vec<char> = vec!['b', 'a', 's', 'h', '-', '3', '.', '2', '$'];
    assert(r@ =~= prompt());
    r
}

/// One pass of prompt removal over `s`.
fn remove_prompt_pass(s: &Vec<char>) -> (r: Vec<char>)
    ensures
        r@ == prompt_removed(s@),
{
    let p = prompt_chars();
    let mut out: Vec<char> = Vec::new();
    let mut i: usize = 0;
    assert(s@.skip(0) =~= s@);
    while i < s.len()
        invariant
            i <= s.len(),
            p@ == prompt(),
            out@ + prompt_removed(s@.skip(i as int)) == prompt_removed(s@),
        decreases s.len() - i,
    {
        let rest = Ghost(s@.skip(i as int));
        if occurs_at_index(s, &p, i) {
            assert(rest@.subrange(0, 9) =~= s@.subrange(i as int, i + 9));
            assert(rest@.skip(9) =~= s@.skip(i + 9));
            i += 9;
        } else {
            assert(!occurs_at(rest@, prompt(), 0)) by {
                if occurs_at(rest@, prompt(), 0) {
                    assert(rest@.subrange(0, 9) =~= s@.subrange(i as int, i + 9));
                }
            }
            assert(rest@.drop_first() =~= s@.skip(i + 1));
            let c = s[i];
            let before = Ghost(out@);
            out.push(c);
            assert(out@ + prompt_removed(s@.skip(i + 1)) =~= before@ + (seq![c]
                + prompt_removed(s@.skip(i + 1))));
            i += 1;
        }
    }
    assert(s@.skip(i as int) =~= Seq::<char>::empty());
    assert(out@ + Seq::<char>::empty() =~= out@);
    out
}

/// `s` with the prompt removed until none is left.
pub fn remove_prompt(s: &Vec<char>) -> (r: Vec<char>)
    ensures
        r@ == prompt_stripped(s@),
        !contains(r@, prompt()),
{
    let p = prompt_chars();
    if !contains_chars(s, &p) {
        let r = slice_chars(s, 0, s.len());
        assert(r@ =~= s@);
        return r;
    }
    let mut cur: Vec<char> = remove_prompt_pass(s);
    while contains_chars(&cur, &p)
        invariant
            p@ == prompt(),
            prompt_stripped(cur@) == prompt_stripped(s@),
        decreases cur.len(),
    {
        proof {
            lemma_pass_shortens(cur@);
        }
        cur = remove_prompt_pass(&cur);
    }
    cur
}

/// Removes the control sequences, then the prompt, from `input`.
pub fn remove_ansi_escape_codes(input: &str) -> (r: String)
    ensures
        r@ == cleaned(input@),
        !contains(r@, prompt()),
{
    let stripped = remove_pattern(CSI_PATTERN, input);
    let chars = chars_of(stripped.as_str());
    let kept = remove_prompt(&chars);
    string_of(&kept)
}


/// Text with no control sequence is left as it is by their removal.
pub proof fn lemma_no_csi_unchanged(s: Seq<char>)
    requires
        no_csi(s),
    ensures
        csi_removed(s) == s,
    decreases s.len(),
{
    if s.len() > 0 {
        assert(s.skip(0) =~= s);
        assert(csi_len(s.skip(0)) == 0);
        let rest = s.drop_first();
        assert forall|i: int| 0 <= i < rest.len() implies csi_len(#[trigger] rest.skip(i)) == 0 by {
            assert(rest.skip(i) =~= s.skip(i + 1));
            assert(csi_len(s.skip(i + 1)) == 0);
        }
        lemma_no_csi_unchanged(rest);
        assert(seq![s[0]] + rest =~= s);
    }
}

/// Text without the prompt is left as it is by its removal.
pub proof fn lemma_no_prompt_unchanged(s: Seq<char>)
    requires
        !contains(s, prompt()),
    ensures
        prompt_stripped(s) == s,
{
}

/// Cleaning is idempotent on text free of control sequences, wherever its
/// cleaned form holds no control sequence either (removing a prompt can join
/// the characters around it into a new sequence).
pub proof fn lemma_clean_idempotent(s: Seq<char>)
    requires
        no_csi(s),
        no_csi(cleaned(s)),
    ensures
        cleaned(cleaned(s)) == cleaned(s),
{
    lemma_prompt_absent(s);
    lemma_no_csi_unchanged(cleaned(s));
    lemma_no_prompt_unchanged(cleaned(s));
}

/// Prompt removal leaves no prompt.
pub proof fn lemma_stripped_has_no_prompt(s: Seq<char>)
    ensures
        !contains(prompt_stripped(s), prompt()),
    decreases s.len(),
{
    if contains(s, prompt()) {
        lemma_pass_shortens(s);
        lemma_stripped_has_no_prompt(prompt_removed(s));
    }
}

/// The cleaned text never holds the prompt, whatever the input.
pub proof fn lemma_prompt_absent(s: Seq<char>)
    ensures
        !contains(cleaned(s), prompt()),
{
    lemma_stripped_has_no_prompt(csi_removed(s));
}

/// The colour sequence around `Hello` in the example of the filter.
pub open spec fn green_hello() -> Seq<char> {
    seq!['\x1b', '[', '3', '2', 'm', 'H', 'e', 'l', 'l', 'o', '\x1b', '[', '0', 'm']
}

/// `Hello`.
pub open spec fn hello() -> Seq<char> {
    seq!['H', 'e', 'l', 'l', 'o']
}

proof fn lemma_csi_holds_no_inner_esc(t: Seq<char>, j: int)
    requires
        is_csi(t),
        1 <= j < t.len(),
    ensures
        t[j] != '\x1b',
{
    if 2 <= j < t.len() - 1 {
        let p = t.subrange(2, t.len() - 1);
        assert(p[j - 2] == t[j]);
        if p.len() > 0 && !is_number(p) {
            let k = choose|k: int|
                0 <= k < p.len() && p[k] == ';' && is_number(#[trigger] p.take(k)) && is_number(
                    p.skip(k + 1),
                );
            if j - 2 < k {
                assert(p.take(k)[j - 2] == p[j - 2]);
            } else if j - 2 > k {
                assert(p.skip(k + 1)[j - 2 - k - 1] == p[j - 2]);
            }
        }
    }
}

proof fn lemma_csi_of_len_concat(x: Seq<char>, y: Seq<char>, n: int)
    requires
        x.len() > 0,
        y.len() > 0,
        y[0] == '\x1b',
        3 <= n,
    ensures
        csi_of_len(x + y, n) == csi_of_len(x, n),
{
    if n <= x.len() {
        assert((x + y).take(n) =~= x.take(n));
    } else if csi_of_len(x + y, n) {
        let t = (x + y).take(n);
        lemma_csi_holds_no_inner_esc(t, x.len() as int);
    }
}

/// A control sequence cannot run on into text that starts with `ESC`.
proof fn lemma_csi_removed_concat(x: Seq<char>, y: Seq<char>)
    requires
        y.len() > 0,
        y[0] == '\x1b',
    ensures
        csi_removed(x + y) == csi_removed(x) + csi_removed(y),
    decreases x.len(),
{
    if x.len() == 0 {
        assert(x + y =~= y);
        assert(csi_removed(x) + csi_removed(y) =~= csi_removed(y));
    } else {
        lemma_csi_of_len_concat(x, y, 3);
        lemma_csi_of_len_concat(x, y, 4);
        lemma_csi_of_len_concat(x, y, 5);
        lemma_csi_of_len_concat(x, y, 6);
        lemma_csi_of_len_concat(x, y, 7);
        lemma_csi_of_len_concat(x, y, 8);
        assert(csi_len(x + y) == csi_len(x));
        let n = csi_len(x);
        if n > 0 {
            assert((x + y).skip(n) =~= x.skip(n) + y);
            lemma_csi_removed_concat(x.skip(n), y);
        } else {
            assert((x + y).drop_first() =~= x.drop_first() + y);
            lemma_csi_removed_concat(x.drop_first(), y);
            assert(seq![x[0]] + (csi_removed(x.drop_first()) + csi_removed(y)) =~= (seq![x[0]]
                + csi_removed(x.drop_first())) + csi_removed(y));
        }
    }
}

proof fn lemma_csi_removed_green_hello(b: Seq<char>)
    ensures
        csi_removed(green_hello() + b) == hello() + csi_removed(b),
{
    let s = green_hello() + b;
    assert(s.take(3) =~= seq!['\x1b', '[', '3']);
    assert(s.take(4) =~= seq!['\x1b', '[', '3', '2']);
    assert(s.take(5) =~= seq!['\x1b', '[', '3', '2', 'm']);
    assert(s.take(5).subrange(2, 4) =~= seq!['3', '2']);
    assert(is_number(seq!['3', '2']));
    assert(csi_len(s) == 5);
    let s1 = s.skip(5);
    assert(s1 =~= seq!['H', 'e', 'l', 'l', 'o', '\x1b', '[', '0', 'm'] + b);
    let s2 = s1.drop_first();
    let s3 = s2.drop_first();
    let s4 = s3.drop_first();
    let s5 = s4.drop_first();
    let s6 = s5.drop_first();
    assert(s1.take(3)[0] == 'H' && s2.take(3)[0] == 'e' && s3.take(3)[0] == 'l');
    assert(s4.take(3)[0] == 'l' && s5.take(3)[0] == 'o');
    assert(csi_len(s1) == 0 && csi_len(s2) == 0 && csi_len(s3) == 0);
    assert(csi_len(s4) == 0 && csi_len(s5) == 0);
    assert(s6 =~= seq!['\x1b', '[', '0', 'm'] + b);
    assert(s6.take(3) =~= seq!['\x1b', '[', '0']);
    assert(s6.take(4) =~= seq!['\x1b', '[', '0', 'm']);
    assert(s6.take(4).subrange(2, 3) =~= seq!['0']);
    assert(is_number(seq!['0']));
    assert(csi_len(s6) == 4);
    assert(s6.skip(4) =~= b);
    assert(csi_removed(s6) == csi_removed(b));
    assert(csi_removed(s5) == seq!['o'] + csi_removed(b));
    assert(csi_removed(s4) == seq!['l'] + (seq!['o'] + csi_removed(b)));
    assert(csi_removed(s3) == seq!['l'] + (seq!['l'] + (seq!['o'] + csi_removed(b))));
    assert(csi_removed(s2) == seq!['e'] + (seq!['l'] + (seq!['l'] + (seq!['o'] + csi_removed(
        b,
    )))));
    assert(csi_removed(s1) == seq!['H'] + (seq!['e'] + (seq!['l'] + (seq!['l'] + (seq!['o']
        + csi_removed(b))))));
    assert(csi_removed(s) == csi_removed(s1));
    assert(hello() + csi_removed(b) =~= seq!['H'] + (seq!['e'] + (seq!['l'] + (seq!['l'] + (
    seq!['o'] + csi_removed(b))))));
}

proof fn lemma_pass_unchanged(s: Seq<char>)
    requires
        !contains(s, prompt()),
    ensures
        prompt_removed(s) == s,
    decreases s.len(),
{
    if s.len() > 0 {
        assert(!occurs_at(s, prompt(), 0));
        let rest = s.drop_first();
        assert(!contains(rest, prompt())) by {
            if contains(rest, prompt()) {
                let k = choose|k: int| occurs_at(rest, prompt(), k);
                assert(s.subrange(k + 1, k + 1 + 9) =~= rest.subrange(k, k + 9));
                assert(occurs_at(s, prompt(), k + 1));
            }
        }
        lemma_pass_unchanged(rest);
        assert(seq![s[0]] + rest =~= s);
    }
}

/// A prompt cannot run on into text that starts with `H`.
proof fn lemma_pass_concat(x: Seq<char>, y: Seq<char>)
    requires
        y.len() > 0,
        y[0] == 'H',
    ensures
        prompt_removed(x + y) == prompt_removed(x) + prompt_removed(y),
    decreases x.len(),
{
    if x.len() == 0 {
        assert(x + y =~= y);
        assert(prompt_removed(x) + prompt_removed(y) =~= prompt_removed(y));
    } else {
        if x.len() >= 9 {
            assert((x + y).subrange(0, 9) =~= x.subrange(0, 9));
        } else if occurs_at(x + y, prompt(), 0) {
            assert((x + y).subrange(0, 9)[x.len() as int] == (x + y)[x.len() as int]);
        }
        if occurs_at(x, prompt(), 0) {
            assert((x + y).skip(9) =~= x.skip(9) + y);
            lemma_pass_concat(x.skip(9), y);
        } else {
            assert((x + y).drop_first() =~= x.drop_first() + y);
            lemma_pass_concat(x.drop_first(), y);
            assert(seq![x[0]] + (prompt_removed(x.drop_first()) + prompt_removed(y)) =~= (seq![
                x[0],
            ] + prompt_removed(x.drop_first())) + prompt_removed(y));
        }
    }
}

proof fn lemma_no_prompt_start(s: Seq<char>)
    requires
        s.len() > 0,
        s[0] != 'b',
    ensures
        !occurs_at(s, prompt(), 0),
{
    if occurs_at(s, prompt(), 0) {
        assert(s.subrange(0, 9)[0] == s[0]);
    }
}

proof fn lemma_pass_hello(w: Seq<char>)
    ensures
        prompt_removed(hello() + w) == hello() + prompt_removed(w),
{
    let s1 = hello() + w;
    let s2 = s1.drop_first();
    let s3 = s2.drop_first();
    let s4 = s3.drop_first();
    let s5 = s4.drop_first();
    assert(s1[0] == 'H' && s2[0] == 'e' && s3[0] == 'l' && s4[0] == 'l' && s5[0] == 'o');
    lemma_no_prompt_start(s1);
    lemma_no_prompt_start(s2);
    lemma_no_prompt_start(s3);
    lemma_no_prompt_start(s4);
    lemma_no_prompt_start(s5);
    assert(s5.drop_first() =~= w);
    assert(prompt_removed(s5) == seq!['o'] + prompt_removed(w));
    assert(prompt_removed(s4) == seq!['l'] + (seq!['o'] + prompt_removed(w)));
    assert(prompt_removed(s3) == seq!['l'] + (seq!['l'] + (seq!['o'] + prompt_removed(w))));
    assert(prompt_removed(s2) == seq!['e'] + (seq!['l'] + (seq!['l'] + (seq!['o']
        + prompt_removed(w)))));
    assert(hello() + prompt_removed(w) =~= seq!['H'] + (seq!['e'] + (seq!['l'] + (seq!['l'] + (
    seq!['o'] + prompt_removed(w))))));
}

proof fn lemma_stripped_around_hello(x: Seq<char>, w: Seq<char>)
    ensures
        prompt_stripped(x + hello() + w) == prompt_stripped(x) + hello() + prompt_stripped(w),
    decreases x.len() + w.len(),
{
    let s = x + hello() + w;
    assert(s =~= x + (hello() + w));
    lemma_pass_concat(x, hello() + w);
    lemma_pass_hello(w);
    assert(prompt_removed(s) =~= prompt_removed(x) + hello() + prompt_removed(w));
    if contains(s, prompt()) {
        lemma_pass_shortens(s);
        lemma_pass_shortens(x);
        lemma_pass_shortens(w);
        lemma_stripped_around_hello(prompt_removed(x), prompt_removed(w));
        if !contains(x, prompt()) {
            lemma_pass_unchanged(x);
        }
        if !contains(w, prompt()) {
            lemma_pass_unchanged(w);
        }
    } else {
        assert(!contains(x, prompt())) by {
            if contains(x, prompt()) {
                let k = choose|k: int| occurs_at(x, prompt(), k);
                assert(s.subrange(k, k + 9) =~= x.subrange(k, k + 9));
                assert(occurs_at(s, prompt(), k));
            }
        }
        assert(!contains(w, prompt())) by {
            if contains(w, prompt()) {
                let k = choose|k: int| occurs_at(w, prompt(), k);
                let o = x.len() + 5;
                assert(s.subrange(o + k, o + k + 9) =~= w.subrange(k, k + 9));
                assert(occurs_at(s, prompt(), o + k));
            }
        }
    }
}

/// Cleaning text that holds `ESC[32mHelloESC[0m` gives `Hello` in its place,
/// with the text on each side cleaned on its own.
pub proof fn lemma_green_hello_cleans_to_hello(a: Seq<char>, b: Seq<char>)
    ensures
        cleaned(a + green_hello() + b) == cleaned(a) + hello() + cleaned(b),
{
    assert(a + green_hello() + b =~= a + (green_hello() + b));
    lemma_csi_removed_concat(a, green_hello() + b);
    lemma_csi_removed_green_hello(b);
    assert(csi_removed(a + green_hello() + b) =~= csi_removed(a) + hello() + csi_removed(b));
    lemma_stripped_around_hello(csi_removed(a), csi_removed(b));
}

} // verus!
