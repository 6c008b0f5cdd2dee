//! Encoding of text labels into one-hot feature vectors.
//!
//! Every character position of a label owns `SLOTS_PER_CHAR` slots of the
//! feature vector: one per letter of the Latin alphabet and one shared by all
//! other printable characters. A slot is set to the scalar one (as an IEEE-754
//! bit pattern) when the character at that position falls in its class.

use vstd::prelude::*;
use crate::input::Config;
use crate::layer::Scalar;
use crate::layer::SCALAR_ONE;

verus! {

/// Slots of the feature vector owned by one character position: the 26
/// letters plus one slot for every other non-whitespace character.
pub const SLOTS_PER_CHAR: u64 = 27;

/// Slot index of a character that is not a Latin letter.
pub const OTHER_SLOT: usize = 26;

/// The characters with the Unicode `White_Space` property, which separate
/// words and are never encoded.
pub open spec fn spec_is_space(c: char) -> bool {
    let u = c as u32;
    ||| (0x09 <= u && u <= 0x0D)
    ||| u == 0x20
    ||| u == 0x85
    ||| u == 0xA0
    ||| u == 0x1680
    ||| (0x2000 <= u && u <= 0x200A)
    ||| u == 0x2028
    ||| u == 0x2029
    ||| u == 0x202F
    ||| u == 0x205F
    ||| u == 0x3000
}

/// The feature slot a character selects: letters map to their alphabet
/// index regardless of case, whitespace maps to no slot, and everything else
/// shares the last slot.
pub open spec fn spec_char_to_num(c: char) -> Option<usize> {
    let u = c as u32;
    let lower = if 0x41 <= u && u <= 0x5A {
        u + 0x20
    } else {
        u as int
    };
    if spec_is_space(c) {
        None
    } else if 0x61 <= lower && lower <= 0x7A {
        Some((lower - 0x61) as usize)
    } else {
        Some(OTHER_SLOT)
    }
}

/// Whether `c` separates words of a label.
pub fn is_space(c: char) -> (r: bool)
    ensures
        r == spec_is_space(c),
{
    let u = c as u32;
    (0x09 <= u && u <= 0x0D) || u == 0x20 || u == 0x85 || u == 0xA0 || u == 0x1680 || (0x2000 <= u
        && u <= 0x200A) || u == 0x2028 || u == 0x2029 || u == 0x202F || u == 0x205F || u == 0x3000
}

/// The feature slot selected by `c`, if any.
pub fn char_to_num(c: char) -> (r: Option<usize>)
    ensures
        r == spec_char_to_num(c),
{
    if is_space(c) {
        return None;
    }
    let u = c as u32;
    let lower = if 0x41 <= u && u <= 0x5A {
        u + 0x20
    } else {
        u
    };
    if 0x61 <= lower && lower <= 0x7A {
        Some((lower - 0x61) as usize)
    } else {
        Some(OTHER_SLOT)
    }
}

/// Length of the feature vector for a configured maximum character count.
pub fn get_input_size(configured_input_length: u64) -> (r: u64)
    requires
        configured_input_length * SLOTS_PER_CHAR <= u64::MAX,
    ensures
        r == configured_input_length * SLOTS_PER_CHAR,
{
    configured_input_length * SLOTS_PER_CHAR
}

/// A word starts a parenthesised remark and is never moved to the tail.
pub open spec fn spec_starts_paren(w: Seq<char>) -> bool {
    w.len() > 0 && w[0] == '('
}

/// The words of a label: maximal runs of non-whitespace characters from
/// position `i` on, `cur` being the run read so far.
pub open spec fn spec_words_acc(s: Seq<char>, i: int, cur: Seq<char>) -> Seq<Seq<char>>
    decreases s.len() - i,
    when 0 <= i
{
    if i >= s.len() {
        if cur.len() == 0 {
            Seq::empty()
        } else {
            seq![cur]
        }
    } else if spec_is_space(s[i]) {
        if cur.len() == 0 {
            spec_words_acc(s, i + 1, Seq::empty())
        } else {
            seq![cur] + spec_words_acc(s, i + 1, Seq::empty())
        }
    } else {
        spec_words_acc(s, i + 1, cur.push(s[i]))
    }
}

/// The words of a label.
pub open spec fn spec_words(s: Seq<char>) -> Seq<Seq<char>> {
    spec_words_acc(s, 0, Seq::empty())
}

/// Words joined by single spaces.
pub open spec fn spec_join(ws: Seq<Seq<char>>) -> Seq<char>
    decreases ws.len(),
{
    if ws.len() == 0 {
        Seq::empty()
    } else if ws.len() == 1 {
        ws[0]
    } else {
        ws[0] + seq![' '] + spec_join(ws.drop_first())
    }
}

/// The index of the last word that does not start a parenthesised remark.
pub open spec fn spec_last_plain(ws: Seq<Seq<char>>) -> Option<int>
    decreases ws.len(),
{
    if ws.len() == 0 {
        None
    } else if !spec_starts_paren(ws.last()) {
        Some(ws.len() - 1)
    } else {
        spec_last_plain(ws.drop_last())
    }
}

/// Sets the slot of `c` within the `SLOTS_PER_CHAR` slots starting at `base`,
/// if `c` selects one.
pub open spec fn spec_mark(v: Seq<Scalar>, base: int, c: char) -> Seq<Scalar> {
    match spec_char_to_num(c) {
        None => v,
        Some(n) => v.update(base + n, SCALAR_ONE),
    }
}

/// Marks the characters of the joined head words at their own positions,
/// from position `i` on.
pub open spec fn spec_mark_head(v: Seq<Scalar>, cs: Seq<char>, i: int) -> Seq<Scalar>
    decreases cs.len() - i,
    when 0 <= i
{
    if i >= cs.len() {
        v
    } else {
        spec_mark_head(spec_mark(v, SLOTS_PER_CHAR * i, cs[i]), cs, i + 1)
    }
}

/// Marks the characters of the tail word right-aligned against the end of
/// the vector, from character `i` on.
pub open spec fn spec_mark_tail(v: Seq<Scalar>, w: Seq<char>, max_chars: int, i: int) -> Seq<
    Scalar,
>
    decreases w.len() - i,
    when 0 <= i
{
    if i >= w.len() {
        v
    } else {
        spec_mark_tail(spec_mark(v, SLOTS_PER_CHAR * (max_chars - 1 - i), w[i]), w, max_chars, i + 1)
    }
}

/// The encoded feature vector of a label: all words but the last plain one
/// are joined by single spaces and marked from the front; the last plain
/// word is marked right-aligned against the end of the vector.
pub open spec fn spec_string_to_data(s: Seq<char>, max_chars: int) -> Seq<Scalar> {
    let ws = spec_words(s);
    let zeros = Seq::new((SLOTS_PER_CHAR * max_chars) as nat, |k: int| 0u32);
    match spec_last_plain(ws) {
        None => spec_mark_head(zeros, spec_join(ws), 0),
        Some(idx) => spec_mark_tail(
            spec_mark_head(zeros, spec_join(ws.remove(idx)), 0),
            ws[idx],
            max_chars,
            0,
        ),
    }
}

/// Joining the words read from position `i` with `cur` pending takes no more
/// characters than the label itself has left, and no single word does either.
proof fn lemma_words_acc_len(s: Seq<char>, i: int, cur: Seq<char>)
    requires
        0 <= i <= s.len(),
    ensures
        spec_join(spec_words_acc(s, i, cur)).len() <= cur.len() + s.len() - i,
        forall|k: int|
            0 <= k < spec_words_acc(s, i, cur).len() ==> #[trigger] spec_words_acc(s, i, cur)[k].len()
                <= cur.len() + s.len() - i,
    decreases s.len() - i,
{
    let ws = spec_words_acc(s, i, cur);
    if i >= s.len() {
    } else if spec_is_space(s[i]) {
        lemma_words_acc_len(s, i + 1, Seq::empty());
        if cur.len() > 0 {
            let rest = spec_words_acc(s, i + 1, Seq::empty());
            assert(ws == seq![cur] + rest);
            assert((seq![cur] + rest).drop_first() =~= rest);
            if rest.len() == 0 {
                assert(ws.len() == 1);
            }
        }
    } else {
        lemma_words_acc_len(s, i + 1, cur.push(s[i]));
    }
}

/// No word is longer than the join of its word list.
proof fn lemma_word_le_join(ws: Seq<Seq<char>>, k: int)
    requires
        0 <= k < ws.len(),
    ensures
        ws[k].len() <= spec_join(ws).len(),
    decreases k,
{
    if ws.len() > 1 {
        if k == 0 {
        } else {
            lemma_word_le_join(ws.drop_first(), k - 1);
        }
    }
}

/// Removing a word never lengthens the join.
proof fn lemma_join_remove_le(ws: Seq<Seq<char>>, idx: int)
    requires
        0 <= idx < ws.len(),
    ensures
        spec_join(ws.remove(idx)).len() <= spec_join(ws).len(),
    decreases idx,
{
    if idx == 0 {
        assert(ws.remove(0) =~= ws.drop_first());
        if ws.len() == 1 {
        }
    } else {
        let rest = ws.drop_first();
        lemma_join_remove_le(rest, idx - 1);
        assert(ws.remove(idx).drop_first() =~= rest.remove(idx - 1));
        assert(ws.remove(idx)[0] == ws[0]);
        if ws.remove(idx).len() == 1 {
            assert(rest.remove(idx - 1).len() == 0);
        }
    }
}

/// The characters of a label, in order.
fn chars_of(s: &str) -> (r: Vec<char>)
    ensures
        r@ == s@,
{
    let n = s.unicode_len();
    let mut v: Vec<char> = Vec::new();
    let mut i: usize = 0;
    while i < n
        invariant
            0 <= i <= n,
            n == s@.len(),
            v@ == s@.subrange(0, i as int),
        decreases n - i,
    {
        v.push(s.get_char(i));
        assert(v@ =~= s@.subrange(0, i + 1));
        i = i + 1;
    }
    assert(v@ =~= s@);
    v
}

/// The views of a list of words.
pub open spec fn words_view(ws: Seq<Vec<char>>) -> Seq<Seq<char>> {
    ws.map_values(|w: Vec<char>| w@)
}

/// Splits the characters from `i` on into words, `cur` being the word read
/// so far.
fn split_words_acc(chars: &Vec<char>, i: usize, cur: Vec<char>) -> (r: Vec<Vec<char>>)
    requires
        i <= chars@.len(),
    ensures
        words_view(r@) == spec_words_acc(chars@, i as int, cur@),
    decreases chars@.len() - i,
{
    if i >= chars.len() {
        let mut out: Vec<Vec<char>> = Vec::new();
        if cur.len() > 0 {
            out.push(cur);
            assert(words_view(out@) =~= seq![cur@]);
        } else {
            assert(words_view(out@) =~= Seq::<Seq<char>>::empty());
        }
        out
    } else if is_space(chars[i]) {
        if cur.len() == 0 {
            split_words_acc(chars, i + 1, Vec::new())
        } else {
            let ghost cur_view = cur@;
            let mut rest = split_words_acc(chars, i + 1, Vec::new());
            let ghost rest_view = rest@;
            let mut out: Vec<Vec<char>> = Vec::new();
            out.push(cur);
            out.append(&mut rest);
            proof {
                assert(words_view(out@) =~= seq![cur_view] + words_view(rest_view)) by {
                    assert(out@ =~= seq![out@[0]] + rest_view);
                }
            }
            out
        }
    } else {
        let c = chars[i];
        let mut cur2 = cur;
        cur2.push(c);
        split_words_acc(chars, i + 1, cur2)
    }
}

/// The words of a label's characters.
fn split_words(chars: &Vec<char>) -> (r: Vec<Vec<char>>)
    ensures
        words_view(r@) == spec_words(chars@),
{
    split_words_acc(chars, 0, Vec::new())
}

/// The index of the last word not starting a parenthesised remark, if any.
fn last_plain_index(words: &Vec<Vec<char>>) -> (r: Option<usize>)
    ensures
        match r {
            Some(i) => i < words@.len() && spec_last_plain(words_view(words@)) == Some(i as int),
            None => spec_last_plain(words_view(words@)) is None,
        },
{
    let ws = Ghost(words_view(words@));
    proof {
        assert(ws@.subrange(0, words@.len() as int) =~= ws@);
    }
    let mut j: usize = words.len();
    while j > 0
        invariant
            0 <= j <= words@.len(),
            ws@ == words_view(words@),
            ws@.len() == words@.len(),
            spec_last_plain(ws@) == spec_last_plain(ws@.subrange(0, j as int)),
        decreases j,
    {
        let w = &words[j - 1];
        let starts_paren = w.len() > 0 && w[0] == '(';
        proof {
            assert(ws@.subrange(0, j as int).last() == ws@[j - 1]);
            assert(ws@[j - 1] == words@[j - 1]@);
        }
        if !starts_paren {
            proof {
                assert(!spec_starts_paren(ws@.subrange(0, j as int).last()));
            }
            return Some(j - 1);
        }
        proof {
            assert(spec_starts_paren(ws@.subrange(0, j as int).last()));
            assert(ws@.subrange(0, j as int).drop_last() =~= ws@.subrange(0, j - 1));
        }
        j = j - 1;
    }
    proof {
        assert(ws@.subrange(0, 0) =~= Seq::<Seq<char>>::empty());
    }
    None
}

/// The words joined by single spaces, from word `i` on.
fn join_from(words: &Vec<Vec<char>>, i: usize) -> (r: Vec<char>)
    requires
        i <= words@.len(),
    ensures
        r@ == spec_join(words_view(words@).skip(i as int)),
    decreases words@.len() - i,
{
    let ghost tail = words_view(words@).skip(i as int);
    if i >= words.len() {
        proof {
            assert(tail =~= Seq::<Seq<char>>::empty());
        }
        Vec::new()
    } else if i == words.len() - 1 {
        proof {
            assert(tail.len() == 1);
            assert(tail[0] == words@[i as int]@);
        }
        crate::misc::copy_vec(&words[i])
    } else {
        let rest = join_from(words, i + 1);
        let mut out = crate::misc::copy_vec(&words[i]);
        out.push(' ');
        let mut k: usize = 0;
        while k < rest.len()
            invariant
                0 <= k <= rest@.len(),
                out@ == words@[i as int]@ + seq![' '] + rest@.subrange(0, k as int),
            decreases rest@.len() - k,
        {
            out.push(rest[k]);
            assert(out@ =~= words@[i as int]@ + seq![' '] + rest@.subrange(0, k + 1));
            k = k + 1;
        }
        proof {
            assert(rest@.subrange(0, rest@.len() as int) =~= rest@);
            assert(tail.drop_first() =~= words_view(words@).skip(i + 1));
            assert(tail[0] == words@[i as int]@);
            assert(out@ =~= spec_join(tail));
        }
        out
    }
}

/// Marks the joined head characters from position `i` on.
fn mark_head(v: Vec<Scalar>, cs: &Vec<char>, i: usize) -> (r: Vec<Scalar>)
    requires
        i <= cs@.len(),
        SLOTS_PER_CHAR * cs@.len() <= v@.len(),
    ensures
        r@ == spec_mark_head(v@, cs@, i as int),
        r@.len() == v@.len(),
    decreases cs@.len() - i,
{
    if i >= cs.len() {
        v
    } else {
        let c = cs[i];
        let marked = match char_to_num(c) {
            None => v,
            Some(n) => {
                let mut v2 = v;
                let vlen = v2.len();
                proof {
                    assert(SLOTS_PER_CHAR * (i as int) + n < SLOTS_PER_CHAR * cs@.len()) by (nonlinear_arith)
                        requires
                            0 <= i < cs@.len(),
                            0 <= n < SLOTS_PER_CHAR,
                    ;
                    assert(SLOTS_PER_CHAR * (i as int) + n < vlen);
                }
                v2.set((SLOTS_PER_CHAR as usize) * i + n, SCALAR_ONE);
                v2
            },
        };
        mark_head(marked, cs, i + 1)
    }
}

/// Marks the tail word right-aligned against the end of the vector, from
/// character `i` on.
fn mark_tail(v: Vec<Scalar>, w: &Vec<char>, max_chars: u64, i: usize) -> (r: Vec<Scalar>)
    requires
        i <= w@.len(),
        w@.len() <= max_chars,
        SLOTS_PER_CHAR * max_chars <= v@.len(),
    ensures
        r@ == spec_mark_tail(v@, w@, max_chars as int, i as int),
        r@.len() == v@.len(),
    decreases w@.len() - i,
{
    if i >= w.len() {
        v
    } else {
        let c = w[i];
        let marked = match char_to_num(c) {
            None => v,
            Some(n) => {
                let mut v2 = v;
                let vlen = v2.len();
                proof {
                    assert(SLOTS_PER_CHAR * (max_chars - 1 - i) + n < SLOTS_PER_CHAR * max_chars)
                        by (nonlinear_arith)
                        requires
                            0 <= i < max_chars,
                            0 <= n < SLOTS_PER_CHAR,
                    ;
                    assert(SLOTS_PER_CHAR * (max_chars - 1 - i) + n < vlen);
                }
                let base: u64 = SLOTS_PER_CHAR * (max_chars - 1 - (i as u64));
                v2.set((base as usize) + n, SCALAR_ONE);
                v2
            },
        };
        mark_tail(marked, w, max_chars, i + 1)
    }
}

/// Encodes a text label into its one-hot feature vector: every word but the
/// last plain one is marked from the front of the vector, in joined order;
/// the last plain word is marked right-aligned against the end.
pub fn string_to_data(str: &str, config: &Config) -> (r: Vec<Scalar>)
    requires
        config.wf(),
        str@.len() <= config.spec_max_chars(),
        config.spec_input_length() <= usize::MAX,
    ensures
        r@ == spec_string_to_data(str@, config.spec_max_chars() as int),
        r@.len() == config.spec_input_length(),
{
    let chars = chars_of(str);
    let mut words = split_words(&chars);
    let input_len = config.input_length();
    let max_chars = config.input_length_max_chars();
    let mut output: Vec<Scalar> = Vec::new();
    let mut z: usize = 0;
    while z < input_len as usize
        invariant
            0 <= z <= config.spec_input_length(),
            input_len == config.spec_input_length(),
            config.spec_input_length() <= usize::MAX,
            output@ =~= Seq::new(z as nat, |k: int| 0u32),
        decreases input_len - z,
    {
        output.push(0u32);
        assert(output@ =~= Seq::new((z + 1) as nat, |k: int| 0u32));
        z = z + 1;
    }
    proof {
        lemma_words_acc_len(str@, 0, Seq::empty());
    }
    let last = last_plain_index(&words);
    match last {
        None => {
            let joined = join_from(&words, 0);
            proof {
                assert(words_view(words@).skip(0) =~= spec_words(str@));
                assert(SLOTS_PER_CHAR * joined@.len() <= SLOTS_PER_CHAR
                    * config.spec_max_chars()) by (nonlinear_arith)
                    requires
                        joined@.len() <= config.spec_max_chars(),
                ;
            }
            mark_head(output, &joined, 0)
        },
        Some(idx) => {
            let ghost full = words_view(words@);
            let tail_word = words.remove(idx);
            proof {
                assert(words_view(words@) =~= full.remove(idx as int)) by {
                    assert forall|j: int| 0 <= j < words@.len() implies #[trigger] words_view(
                        words@,
                    )[j] == full.remove(idx as int)[j] by {
                    }
                }
                lemma_join_remove_le(full, idx as int);
                lemma_word_le_join(full, idx as int);
            }
            let joined = join_from(&words, 0);
            proof {
                assert(words_view(words@).skip(0) =~= words_view(words@));
                assert(SLOTS_PER_CHAR * joined@.len() <= SLOTS_PER_CHAR
                    * config.spec_max_chars()) by (nonlinear_arith)
                    requires
                        joined@.len() <= config.spec_max_chars(),
                ;
            }
            let head_marked = mark_head(output, &joined, 0);
            proof {
                assert(tail_word@ == full[idx as int]);
                assert(tail_word@.len() <= config.spec_max_chars());
                assert(SLOTS_PER_CHAR * config.spec_max_chars() <= head_marked@.len());
            }
            mark_tail(head_marked, &tail_word, max_chars, 0)
        },
    }
}

} // verus!
