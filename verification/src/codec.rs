//! Run-length text codec for flattened boards.
//!
//! A flat board text over digits and `'.'` is shortened by replacing every run
//! of one repeated character with the character and a single letter that
//! counts the repetitions. Letters never occur in board text, so the two
//! alphabets cannot be confused and decoding is exact.

use vstd::prelude::*;

verus! {

broadcast use vstd::string::group_string_axioms;

/// Longest run that a single letter can count.
pub const MAX_RUN: usize = 52;

/// Whether `c` is a run-length token: an ASCII letter.
pub open spec fn is_token(c: char) -> bool {
    ('a' <= c && c <= 'z') || ('A' <= c && c <= 'Z')
}

/// The zero-based index that a run-length token stands for:
/// `'a'..='z'` are 0 to 25, `'A'..='Z'` are 26 to 51.
pub open spec fn token_index(c: char) -> int {
    if 'a' <= c && c <= 'z' {
        c as u32 - 'a' as u32
    } else {
        c as u32 - 'A' as u32 + 26
    }
}

/// The token for index `idx`, for `0 <= idx < 52`.
pub open spec fn token_of(idx: int) -> char {
    if idx < 26 {
        (('a' as u32 + idx) as u8) as char
    } else {
        (('A' as u32 + idx - 26) as u8) as char
    }
}

/// The sequence made of `n` copies of `c`.
pub open spec fn repeated(c: char, n: nat) -> Seq<char> {
    Seq::new(n, |i: int| c)
}

/// Length of the run of equal characters that `s` starts with.
pub open spec fn run_length(s: Seq<char>) -> nat
    decreases s.len(),
{
    if s.len() <= 1 {
        s.len()
    } else if s[1] == s[0] {
        1 + run_length(s.drop_first())
    } else {
        1
    }
}

/// Encoded form of `n` copies of `c`, for `1 <= n <= 52`: the character
/// alone for a single copy, otherwise the character and the token for `n - 1`.
pub open spec fn chunk(c: char, n: int) -> Seq<char> {
    if n <= 1 {
        seq![c]
    } else {
        seq![c, token_of(n - 1)]
    }
}

/// The compressed form of `s`: each maximal run is cut, from its start, into
/// pieces of at most 52 characters, and every piece is written as a `chunk`.
pub open spec fn compressed(s: Seq<char>) -> Seq<char>
    decreases s.len(),
{
    if s.len() == 0 {
        Seq::empty()
    } else {
        let n = if run_length(s) < 52 { run_length(s) as int } else { 52 };
        if 1 <= n <= s.len() {
            chunk(s[0], n) + compressed(s.skip(n))
        } else {
            Seq::empty()
        }
    }
}

/// `prefix` put in front of a decoding result, if there is one.
pub open spec fn prepend(prefix: Seq<char>, rest: Option<Seq<char>>) -> Option<Seq<char>> {
    match rest {
        Some(r) => Some(prefix + r),
        None => None,
    }
}

/// The text that `s` decodes to. A compressed text is a sequence of literal
/// characters, each optionally followed by one token; a literal with the token
/// of index `k` stands for `k + 1` copies of the literal. A token that does not
/// directly follow a literal has nothing to repeat, and the text is malformed.
pub open spec fn decompressed(s: Seq<char>) -> Option<Seq<char>>
    decreases s.len(),
{
    if s.len() == 0 {
        Some(Seq::empty())
    } else if is_token(s[0]) {
        None
    } else if s.len() >= 2 && is_token(s[1]) {
        prepend(repeated(s[0], (token_index(s[1]) + 1) as nat), decompressed(s.skip(2)))
    } else {
        prepend(seq![s[0]], decompressed(s.skip(1)))
    }
}

/// A flattened board as it travels in a link: 81 characters, each a digit or `'.'`.
pub open spec fn valid_game_text(s: Seq<char>) -> bool {
    &&& s.len() == 81
    &&& forall|i: int| 0 <= i < s.len() ==> ('0' <= #[trigger] s[i] && s[i] <= '9') || s[i] == '.'
}

/// Tokens and their indices correspond one to one.
pub proof fn lemma_token_of_index(idx: int)
    requires
        0 <= idx < 52,
    ensures
        is_token(token_of(idx)),
        token_index(token_of(idx)) == idx,
{
}

/// A token's index is below 52 and maps back to the token.
pub proof fn lemma_index_of_token(c: char)
    requires
        is_token(c),
    ensures
        0 <= token_index(c) < 52,
        token_of(token_index(c)) == c,
{
}

/// Index of a run-length token, or `None` for any other character.
pub fn get_count(c: char) -> (r: Option<usize>)
    ensures
        is_token(c) ==> r == Some(token_index(c) as usize) && 0 <= token_index(c) < 52,
        !is_token(c) ==> r is None,
{
    if 'a' <= c && c <= 'z' {
        Some((c as u32 - 'a' as u32) as usize)
    } else if 'A' <= c && c <= 'Z' {
        Some((c as u32 - 'A' as u32) as usize + 26)
    } else {
        None
    }
}

/// The token that stands for `idx`, or `None` when `idx` is not below 52.
pub fn get_letter(idx: usize) -> (r: Option<char>)
    ensures
        idx < 52 ==> r == Some(token_of(idx as int)),
        idx >= 52 ==> r is None,
{
    if idx < 26 {
        Some((('a' as u32 + idx as u32) as u8) as char)
    } else if idx < 52 {
        Some((('A' as u32 + idx as u32 - 26) as u8) as char)
    } else {
        None
    }
}


/// Writes to `compressed` the chunk for a run of `count` copies of `c`. A count
/// of zero or one writes the character alone. A count above 52 has no token:
/// nothing is written and the result is `None`.
pub fn push_repeated(compressed: &mut String, c: char, count: usize) -> (r: Option<()>)
    ensures
        count <= 52 ==> r is Some && final(compressed)@ == old(compressed)@ + chunk(c, count as int),
        count > 52 ==> r is None && final(compressed)@ == old(compressed)@,
{
    if count > 1 {
        match get_letter(count - 1) {
            Some(letter) => {
                compressed.push(c);
                compressed.push(letter);
                assert(compressed@ == old(compressed)@ + chunk(c, count as int));
            },
            None => {
                return None;
            },
        }
    } else {
        compressed.push(c);
        assert(compressed@ == old(compressed)@ + chunk(c, count as int));
    }
    Some(())
}

/// Counts one more copy of `c` in a pending run of `count` copies. A run that
/// already holds 52 copies is written to `compressed` first, and the new copy
/// starts the next run.
pub fn push_if_full(compressed: &mut String, c: char, count: usize) -> (r: Option<usize>)
    requires
        count < usize::MAX,
    ensures
        count == 52 ==> r == Some(1usize) && final(compressed)@ == old(compressed)@ + chunk(c, 52),
        count != 52 ==> r == Some((count + 1) as usize) && final(compressed)@ == old(compressed)@,
{
    if count == MAX_RUN {
        match get_letter(count - 1) {
            Some(letter) => {
                compressed.push(c);
                compressed.push(letter);
                assert(compressed@ == old(compressed)@ + chunk(c, 52));
                Some(1)
            },
            None => None,
        }
    } else {
        Some(count + 1)
    }
}

/// Compresses `s` by run-length encoding. The result is always `Some`.
pub fn compress_string(s: &str) -> (r: Option<String>)
    ensures
        r matches Some(text) && text@ == compressed(s@),
{
    let mut out = String::new();
    let mut count: usize = 0;
    let mut last_char: char = '.';
    proof {
        assert(repeated(last_char, 0) + s@.skip(0) =~= s@);
        assert(out@ + compressed(s@) =~= compressed(s@));
    }
    for c in it: s.chars()
        invariant
            it.seq() == s@,
            count <= 52,
            it.index() > 0 ==> count >= 1,
            it.index() == 0 ==> count == 0 && out@.len() == 0,
            compressed(s@) == out@ + compressed(
                repeated(last_char, count as nat) + s@.skip(it.index() as int),
            ),
    {
        let ghost i = it.index() as int;
        let ghost rest = s@.skip(i + 1);
        assert(s@.skip(i) =~= seq![c] + rest);
        if count == 0 {
            proof {
                assert(repeated(last_char, 0) + s@.skip(i) =~= repeated(c, 1) + rest);
            }
            last_char = c;
            count = 1;
        } else if c == last_char {
            proof {
                if count == 52 {
                    lemma_compressed_flush(last_char, 52, s@.skip(i));
                    assert(repeated(c, 1) + rest =~= s@.skip(i));
                } else {
                    assert(repeated(last_char, count as nat) + s@.skip(i) =~= repeated(
                        last_char,
                        (count + 1) as nat,
                    ) + rest);
                }
            }
            match push_if_full(&mut out, c, count) {
                Some(n) => {
                    count = n;
                },
                None => {
                    return None;
                },
            }
        } else {
            proof {
                lemma_compressed_flush(last_char, count as nat, s@.skip(i));
                assert(repeated(c, 1) + rest =~= s@.skip(i));
            }
            match push_repeated(&mut out, last_char, count) {
                Some(_) => {},
                None => {
                    return None;
                },
            }
            last_char = c;
            count = 1;
        }
    }
    if count == 0 {
        assert(s@.len() == 0);
        return Some(out);
    }
    proof {
        let e = Seq::<char>::empty();
        assert(s@.skip(s@.len() as int) =~= e);
        lemma_compressed_flush(last_char, count as nat, e);
        assert(compressed(e) =~= e);
    }
    match push_repeated(&mut out, last_char, count) {
        Some(_) => Some(out),
        None => None,
    }
}

/// Appends `n` copies of `c` to `out`.
fn push_copies(out: &mut String, c: char, n: usize)
    ensures
        final(out)@ == old(out)@ + repeated(c, n as nat),
{
    let mut k: usize = 0;
    while k < n
        invariant
            k <= n,
            out@ == old(out)@ + repeated(c, k as nat),
        decreases n - k,
    {
        out.push(c);
        k += 1;
        assert(out@ =~= old(out)@ + repeated(c, k as nat));
    }
}

/// Expands a compressed text. The result is `None` exactly when some token
/// does not directly follow a literal character: at the very start, or right
/// after another token.
pub fn decompress_string(s: &str) -> (r: Option<String>)
    ensures
        match decompressed(s@) {
            Some(text) => r matches Some(found) && found@ == text,
            None => r is None,
        },
{
    let mut out = String::new();
    let mut anchor: Option<char> = None;
    proof {
        assert(Seq::<char>::empty() + s@.skip(0) =~= s@);
        lemma_prepend_empty(decompressed(s@));
    }
    for c in it: s.chars()
        invariant
            it.seq() == s@,
            decompressed(s@) == prepend(
                out@,
                decompressed(
                    (match anchor {
                        Some(a) => seq![a],
                        None => Seq::<char>::empty(),
                    }) + s@.skip(it.index() as int),
                ),
            ),
            anchor matches Some(a) ==> !is_token(a),
    {
        let ghost i = it.index() as int;
        let ghost rest = s@.skip(i + 1);
        let ghost before = out@;
        assert(s@.skip(i) =~= seq![c] + rest);
        match get_count(c) {
            Some(idx) => {
                match anchor {
                    Some(a) => {
                        proof {
                            let t = seq![a] + s@.skip(i);
                            assert(t[1] == c);
                            assert(t.skip(2) =~= rest);
                            assert(Seq::<char>::empty() + rest =~= rest);
                            lemma_prepend_twice(
                                before,
                                repeated(a, (idx + 1) as nat),
                                decompressed(rest),
                            );
                        }
                        push_copies(&mut out, a, idx + 1);
                        anchor = None;
                    },
                    None => {
                        proof {
                            let t = Seq::<char>::empty() + s@.skip(i);
                            assert(t =~= s@.skip(i));
                            assert(t[0] == c);
                        }
                        return None;
                    },
                }
            },
            None => {
                match anchor {
                    Some(a) => {
                        proof {
                            let t = seq![a] + s@.skip(i);
                            assert(t[1] == c);
                            assert(t.skip(1) =~= s@.skip(i));
                            lemma_prepend_twice(before, seq![a], decompressed(s@.skip(i)));
                        }
                        out.push(a);
                        assert(out@ =~= before + seq![a]);
                    },
                    None => {
                        assert(Seq::<char>::empty() + s@.skip(i) =~= s@.skip(i));
                    },
                }
                anchor = Some(c);
            },
        }
    }
    proof {
        assert(s@.skip(s@.len() as int) =~= Seq::<char>::empty());
    }
    let ghost e = Seq::<char>::empty();
    match anchor {
        Some(a) => {
            proof {
                let t = seq![a] + e;
                assert(t.skip(1) =~= e);
                assert(decompressed(e) == Some(e));
                assert(decompressed(t) == prepend(seq![a], Some(e)));
                assert(out@ + (seq![a] + e) =~= out@.push(a));
            }
            out.push(a);
        },
        None => {
            proof {
                assert(e + e =~= e);
                assert(decompressed(e) == Some(e));
                assert(out@ + e =~= out@);
            }
        },
    }
    Some(out)
}

/// Whether `game_str` is a flattened board: 81 characters, each a digit or `'.'`.
pub fn is_valid_game_str(game_str: &str) -> (r: bool)
    ensures
        r == valid_game_text(game_str@),
{
    let mut n: usize = 0;
    let mut ok = true;
    for c in it: game_str.chars()
        invariant
            it.seq() == game_str@,
            n <= 82,
            n == it.index() || (n == 82 && it.index() > 81),
            ok == (forall|i: int|
                0 <= i < it.index() ==> ('0' <= #[trigger] game_str@[i] && game_str@[i] <= '9')
                    || game_str@[i] == '.'),
    {
        if !(('0' <= c && c <= '9') || c == '.') {
            ok = false;
        }
        if n < 82 {
            n += 1;
        }
    }
    n == 81 && ok
}

/// An empty prefix changes nothing.
proof fn lemma_prepend_empty(rest: Option<Seq<char>>)
    ensures
        prepend(Seq::empty(), rest) == rest,
{
    if let Some(r) = rest {
        assert(Seq::<char>::empty() + r =~= r);
    }
}

/// Putting two prefixes in front of a result, one after the other, is putting
/// their concatenation in front of it.
proof fn lemma_prepend_twice(a: Seq<char>, b: Seq<char>, rest: Option<Seq<char>>)
    ensures
        prepend(a, prepend(b, rest)) == prepend(a + b, rest),
{
    if let Some(r) = rest {
        assert(a + (b + r) =~= (a + b) + r);
    }
}

/// The run that `k` copies of `c` in front of `t` start with.
pub proof fn lemma_run_length_repeated(c: char, k: nat, t: Seq<char>)
    requires
        k >= 1,
    ensures
        run_length(repeated(c, k) + t) == k + (if t.len() > 0 && t[0] == c {
            run_length(t)
        } else {
            0
        }),
    decreases k,
{
    let s = repeated(c, k) + t;
    if k == 1 {
        assert(s.drop_first() =~= t);
        if t.len() > 0 && t[0] == c {
            assert(s[1] == s[0]);
        }
    } else {
        assert(s.drop_first() =~= repeated(c, (k - 1) as nat) + t);
        assert(s[1] == s[0]);
        lemma_run_length_repeated(c, (k - 1) as nat, t);
    }
}

/// The first `run_length(s)` characters of `s` are equal to its first one.
pub proof fn lemma_run_is_constant(s: Seq<char>)
    ensures
        run_length(s) <= s.len(),
        s.len() > 0 ==> run_length(s) >= 1,
        forall|i: int| 0 <= i < run_length(s) ==> #[trigger] s[i] == s[0],
    decreases s.len(),
{
    if s.len() > 1 && s[1] == s[0] {
        let t = s.drop_first();
        lemma_run_is_constant(t);
        assert forall|i: int| 0 <= i < run_length(s) implies #[trigger] s[i] == s[0] by {
            if i > 0 {
                assert(s[i] == t[i - 1]);
            }
        }
    }
}

/// A pending run of `k` copies of `c` leaves the encoder as one chunk as soon
/// as it is full, the text ends, or another character follows.
pub proof fn lemma_compressed_flush(c: char, k: nat, t: Seq<char>)
    requires
        1 <= k <= 52,
        k == 52 || t.len() == 0 || t[0] != c,
    ensures
        compressed(repeated(c, k) + t) == chunk(c, k as int) + compressed(t),
{
    let s = repeated(c, k) + t;
    lemma_run_length_repeated(c, k, t);
    assert(s.skip(k as int) =~= t);
    assert(s[0] == c);
}

/// A compressed text starts with the character that its source starts with.
pub proof fn lemma_compressed_first(s: Seq<char>)
    requires
        s.len() > 0,
    ensures
        compressed(s).len() > 0,
        compressed(s)[0] == s[0],
{
    lemma_run_is_constant(s);
}

/// Compressing 52 copies of a character gives the character and `'Z'`;
/// one copy more starts a new run of length one.
pub proof fn lemma_run_boundary(c: char)
    ensures
        compressed(repeated(c, 52)) == seq![c, 'Z'],
        compressed(repeated(c, 53)) == seq![c, 'Z', c],
{
    let e = Seq::<char>::empty();
    lemma_compressed_flush(c, 52, e);
    assert(repeated(c, 52) + e =~= repeated(c, 52));
    assert(compressed(e) =~= e);
    assert(chunk(c, 52) + e =~= seq![c, 'Z']);
    lemma_compressed_flush(c, 52, repeated(c, 1));
    assert(repeated(c, 52) + repeated(c, 1) =~= repeated(c, 53));
    lemma_compressed_flush(c, 1, e);
    assert(repeated(c, 1) + e =~= repeated(c, 1));
    assert(chunk(c, 52) + (chunk(c, 1) + e) =~= seq![c, 'Z', c]);
}

/// Decoding undoes encoding: a text without letters is recovered exactly from
/// its compressed form.
pub proof fn lemma_round_trip(s: Seq<char>)
    requires
        forall|i: int| 0 <= i < s.len() ==> !is_token(#[trigger] s[i]),
    ensures
        decompressed(compressed(s)) == Some(s),
    decreases s.len(),
{
    if s.len() == 0 {
    } else {
        lemma_run_is_constant(s);
        let n = if run_length(s) < 52 { run_length(s) as int } else { 52 };
        let rest = s.skip(n);
        let u = compressed(rest);
        let z = compressed(s);
        assert(z == chunk(s[0], n) + u);
        assert forall|i: int| 0 <= i < rest.len() implies !is_token(#[trigger] rest[i]) by {
            assert(rest[i] == s[i + n]);
        }
        lemma_round_trip(rest);
        if rest.len() > 0 {
            lemma_compressed_first(rest);
            assert(rest[0] == s[n]);
            assert(!is_token(u[0]));
        } else {
            assert(u =~= Seq::<char>::empty());
        }
        if n == 1 {
            assert(z.skip(1) =~= u);
            assert(z[0] == s[0]);
            if z.len() >= 2 {
                assert(z[1] == u[0]);
            }
            assert(seq![s[0]] + rest =~= s);
        } else {
            lemma_token_of_index(n - 1);
            assert(z.skip(2) =~= u);
            assert(z[0] == s[0]);
            assert(z[1] == token_of(n - 1));
            assert(repeated(s[0], n as nat) + rest =~= s);
        }
    }
}

/// Every valid 81-character board text survives compression and decompression.
pub proof fn lemma_round_trip_game_text(s: Seq<char>)
    requires
        valid_game_text(s),
    ensures
        decompressed(compressed(s)) == Some(s),
{
    lemma_round_trip(s);
}

} // verus!
