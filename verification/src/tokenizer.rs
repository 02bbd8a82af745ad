//! A whitespace tokenizer over a word vocabulary.
use vstd::prelude::*;
use vstd::string::*;
use crate::text::{
    decimal, decimal_chars, is_white_space, lemma_decimal_injective, starts_with, str_chars, str_eq,
    usize_to_string, white_space, ws_words,
};

verus! {

/// Vocabulary keys as character sequences.
pub open spec fn key_chars(keys: Seq<Vec<char>>) -> Seq<Seq<char>> {
    keys.map_values(|k: Vec<char>| k@)
}

/// The map that distinct keys and their ids stand for.
pub open spec fn pairs_map(keys: Seq<Seq<char>>, ids: Seq<usize>) -> Map<Seq<char>, usize> {
    Map::new(|k: Seq<char>| keys.contains(k), |k: Seq<char>| ids[keys.index_of(k)])
}

/// Each distinct key maps to its own id.
pub proof fn lemma_pairs_map_at(keys: Seq<Seq<char>>, ids: Seq<usize>, i: int)
    requires
        keys.no_duplicates(),
        keys.len() == ids.len(),
        0 <= i < keys.len(),
    ensures
        pairs_map(keys, ids).contains_key(keys[i]),
        pairs_map(keys, ids)[keys[i]] == ids[i],
{
    assert(keys.contains(keys[i]));
    let j = keys.index_of(keys[i]);
    assert(0 <= j < keys.len() && keys[j] == keys[i]);
}

/// The text of token `i` of a numbered vocabulary: the four special tokens,
/// then `token_<i>`.
pub open spec fn numbered_text(i: nat) -> Seq<char> {
    if i == 0 {
        "<s>"@
    } else if i == 1 {
        "</s>"@
    } else if i == 2 {
        "<pad>"@
    } else if i == 3 {
        "<unk>"@
    } else {
        "token_"@ + decimal(i)
    }
}

/// The first `m` texts of a numbered vocabulary.
pub open spec fn numbered_texts(m: nat) -> Seq<Seq<char>> {
    Seq::new(m, |i: int| numbered_text(i as nat))
}

/// The ids `0..m`.
pub open spec fn ids_upto(m: nat) -> Seq<usize> {
    Seq::new(m, |i: int| i as usize)
}

/// The keys a word vocabulary starts with: the four special tokens and
/// `<space>`.
pub open spec fn word_specials() -> Seq<Seq<char>> {
    seq!["<s>"@, "</s>"@, "<pad>"@, "<unk>"@, "<space>"@]
}

/// The texts a word vocabulary's ids start with: the special tokens and a
/// single space for the `<space>` id.
pub open spec fn word_special_texts() -> Seq<Seq<char>> {
    seq!["<s>"@, "</s>"@, "<pad>"@, "<unk>"@, " "@]
}

/// `m` with `ws[j]` mapped to `start + j`, in order (a later word replaces
/// an earlier equal one).
pub open spec fn insert_all(m: Map<Seq<char>, usize>, ws: Seq<Seq<char>>, start: nat) -> Map<Seq<char>, usize>
    decreases ws.len(),
{
    if ws.len() == 0 {
        m
    } else {
        insert_all(m, ws.drop_last(), start).insert(ws.last(), (start + ws.len() - 1) as usize)
    }
}

/// Maps whitespace-separated words to ids and back.
pub struct SimpleTokenizer {
    vocab_keys: Vec<Vec<char>>,
    vocab_ids: Vec<usize>,
    reverse_vocab: Vec<String>,
    bos_token: usize,
    eos_token: usize,
    pad_token: usize,
    unk_token: usize,
}

/// The id of a word: its vocabulary id, or `unk` when it has none.
pub open spec fn word_id(vocab: Map<Seq<char>, usize>, unk: usize, w: Seq<char>) -> usize {
    if vocab.contains_key(w) { vocab[w] } else { unk }
}

/// The ids of words, each followed by the id `space`.
pub open spec fn word_ids(vocab: Map<Seq<char>, usize>, unk: usize, space: usize, ws: Seq<Seq<char>>) -> Seq<usize>
    decreases ws.len(),
{
    if ws.len() == 0 {
        Seq::empty()
    } else {
        word_ids(vocab, unk, space, ws.drop_last()) + seq![word_id(vocab, unk, ws.last()), space]
    }
}

/// Whether a text is a numbered placeholder (starts with `token_`).
pub open spec fn is_placeholder(s: Seq<char>) -> bool {
    "token_"@.len() <= s.len() && s.subrange(0, "token_"@.len() as int) == "token_"@
}

/// The text one id decodes to, given the id-to-text table `rev`: nothing for
/// a skipped special id, a space for the `<space>` text, `?` for a
/// placeholder or an unknown id, else the id's text.
pub open spec fn decode_piece(rev: Seq<Seq<char>>, t: usize, skip: bool, bos: usize, eos: usize, pad: usize) -> Seq<char> {
    if skip && (t == bos || t == eos || t == pad) {
        Seq::empty()
    } else if t < rev.len() {
        if rev[t as int] == "<space>"@ {
            " "@
        } else if !is_placeholder(rev[t as int]) {
            rev[t as int]
        } else {
            "?"@
        }
    } else {
        "?"@
    }
}

/// The texts of a sequence of ids, one after another.
pub open spec fn decode_all(rev: Seq<Seq<char>>, ts: Seq<usize>, skip: bool, bos: usize, eos: usize, pad: usize) -> Seq<char>
    decreases ts.len(),
{
    if ts.len() == 0 {
        Seq::empty()
    } else {
        decode_all(rev, ts.drop_last(), skip, bos, eos, pad) + decode_piece(rev, ts.last(), skip, bos, eos, pad)
    }
}

/// How one more character changes the words of a prefix.
proof fn lemma_ws_step(cs: Seq<char>, p: int)
    requires
        0 <= p < cs.len(),
    ensures
        ({
            let w = ws_words(cs.take(p));
            let c = cs[p];
            ws_words(cs.take(p + 1)) == if is_white_space(c) {
                w
            } else if p > 0 && !is_white_space(cs[p - 1]) {
                w.update(w.len() - 1, w.last().push(c))
            } else {
                w.push(seq![c])
            }
        }),
{
    assert(cs.take(p + 1).drop_last() =~= cs.take(p));
    assert(cs.take(p + 1).last() == cs[p]);
    if p > 0 {
        assert(cs.take(p).last() == cs[p - 1]);
    }
}

/// A longer prefix has at least as many words.
proof fn lemma_ws_mono(cs: Seq<char>, p: int, q: int)
    requires
        0 <= p <= q <= cs.len(),
    ensures
        ws_words(cs.take(p)).len() <= ws_words(cs.take(q)).len(),
    decreases q - p,
{
    if p < q {
        lemma_ws_mono(cs, p, q - 1);
        lemma_ws_step(cs, q - 1);
    }
}

/// The special keys of a word vocabulary differ from each other.
proof fn lemma_word_specials_distinct()
    ensures
        word_specials().no_duplicates(),
{
    reveal_strlit("<s>");
    reveal_strlit("</s>");
    reveal_strlit("<pad>");
    reveal_strlit("<unk>");
    reveal_strlit("<space>");
    let s = word_specials();
    assert(s[0].len() == 3 && s[1].len() == 4 && s[2].len() == 5 && s[3].len() == 5 && s[4].len() == 7);
    assert(s[2][1] != s[3][1]);
}

/// The texts of a numbered vocabulary differ from each other.
pub proof fn lemma_numbered_distinct(m: nat)
    ensures
        numbered_texts(m).no_duplicates(),
{
    reveal_strlit("<s>");
    reveal_strlit("</s>");
    reveal_strlit("<pad>");
    reveal_strlit("<unk>");
    reveal_strlit("token_");
    let s = numbered_texts(m);
    assert forall|a: int, b: int| 0 <= a < b < s.len() implies s[a] != s[b] by {
        assert(s[a] == numbered_text(a as nat) && s[b] == numbered_text(b as nat));
        if b < 4 {
            assert(numbered_text(2)[1] == 'p' && numbered_text(3)[1] == 'u');
            assert(numbered_text(0).len() == 3 && numbered_text(1).len() == 4 && numbered_text(2).len() == 5
                && numbered_text(3).len() == 5);
        } else if a < 4 {
            assert(s[b][0] == 't');
            assert(s[a][0] == '<');
        } else {
            if s[a] == s[b] {
                assert(s[a].subrange(6, s[a].len() as int) =~= decimal(a as nat));
                assert(s[b].subrange(6, s[b].len() as int) =~= decimal(b as nat));
                lemma_decimal_injective(a as nat, b as nat);
            }
        }
    }
}

/// Inserts `key -> id` into a vocabulary held as distinct keys and their ids.
fn vocab_insert(keys: &mut Vec<Vec<char>>, ids: &mut Vec<usize>, key: Vec<char>, id: usize)
    requires
        old(keys)@.len() == old(ids)@.len(),
        key_chars(old(keys)@).no_duplicates(),
    ensures
        final(keys)@.len() == final(ids)@.len(),
        key_chars(final(keys)@).no_duplicates(),
        pairs_map(key_chars(final(keys)@), final(ids)@) == pairs_map(key_chars(old(keys)@), old(ids)@).insert(key@, id),
{
    let ghost k0 = key_chars(keys@);
    let ghost i0 = ids@;
    let ghost before = pairs_map(k0, i0);
    let mut i: usize = 0;
    while i < keys.len()
        invariant
            keys@ == old(keys)@,
            ids@ == old(ids)@,
            k0 == key_chars(keys@),
            i0 == ids@,
            before == pairs_map(k0, i0),
            keys@.len() == ids@.len(),
            k0.no_duplicates(),
            i <= keys@.len(),
            forall|j: int| 0 <= j < i ==> k0[j] != key@,
        decreases keys@.len() - i,
    {
        if chars_eq(&keys[i], &key) {
            ids.set(i, id);
            proof {
                assert(k0[i as int] == key@);
                assert(k0.contains(key@));
                let after = pairs_map(k0, ids@);
                assert forall|k: Seq<char>| #[trigger] after.contains_key(k) <==> before.insert(key@, id).contains_key(k) by {
                    if k == key@ {
                        assert(k0.contains(k));
                    }
                }
                assert forall|k: Seq<char>| after.contains_key(k) implies #[trigger] after[k] == before.insert(key@, id)[k] by {
                    let j = k0.index_of(k);
                    assert(0 <= j < k0.len() && k0[j] == k);
                    if k == key@ {
                        assert(j == i);
                    } else {
                        assert(j != i);
                        assert(before.contains_key(k));
                        assert(before[k] == i0[j]);
                    }
                }
                assert(after =~= before.insert(key@, id));
            }
            return;
        }
        i = i + 1;
    }
    keys.push(key);
    ids.push(id);
    proof {
        let k1 = key_chars(keys@);
        assert(k1 =~= k0.push(key@));
        assert(!k0.contains(key@));
        assert forall|a: int, b: int| 0 <= a < b < k1.len() implies k1[a] != k1[b] by {
            if b == k1.len() - 1 {
                assert(k1[a] == k0[a]);
            } else {
                assert(k1[a] == k0[a] && k1[b] == k0[b]);
            }
        }
        let after = pairs_map(k1, ids@);
        assert(k1[k1.len() - 1] == key@);
        assert(k1.contains(key@));
        assert forall|k: Seq<char>| #[trigger] after.contains_key(k) <==> before.insert(key@, id).contains_key(k) by {
            if k == key@ {
                assert(k1.contains(k));
            }
            if k1.contains(k) && k != key@ {
                let j = choose|j: int| 0 <= j < k1.len() && k1[j] == k;
                assert(j < k0.len());
                assert(k0[j] == k);
            }
            if k0.contains(k) {
                let j = choose|j: int| 0 <= j < k0.len() && k0[j] == k;
                assert(k1[j] == k);
            }
        }
        assert forall|k: Seq<char>| after.contains_key(k) implies #[trigger] after[k] == before.insert(key@, id)[k] by {
            let j = k1.index_of(k);
            assert(0 <= j < k1.len() && k1[j] == k);
            if k == key@ {
                assert(j == k1.len() - 1);
            } else {
                assert(j < k0.len());
                let j0 = k0.index_of(k);
                assert(0 <= j0 < k0.len() && k0[j0] == k);
                assert(k1[j0] == k);
                assert(j0 == j);
                assert(before.contains_key(k));
            }
        }
        assert(after =~= before.insert(key@, id));
    }
}

/// Whether two character vectors are equal.
fn chars_eq(a: &Vec<char>, b: &Vec<char>) -> (r: bool)
    ensures
        r == (a@ == b@),
{
    if a.len() != b.len() {
        return false;
    }
    let mut i: usize = 0;
    while i < a.len()
        invariant
            a@.len() == b@.len(),
            i <= a@.len(),
            forall|j: int| 0 <= j < i ==> a@[j] == b@[j],
        decreases a@.len() - i,
    {
        if a[i] != b[i] {
            return false;
        }
        i = i + 1;
    }
    assert(a@ =~= b@);
    true
}

/// Words joined with a space after each.
pub open spec fn spaced_words(ws: Seq<Seq<char>>) -> Seq<char>
    decreases ws.len(),
{
    if ws.len() == 0 {
        Seq::empty()
    } else {
        spaced_words(ws.drop_last()) + ws.last() + " "@
    }
}

/// Decoding the ids of words (skipping special ids or not), where each
/// word's id decodes to the word and the separator id to a space, gives the
/// words back, each followed by a space.
pub proof fn lemma_decode_word_ids(
    vocab: Map<Seq<char>, usize>,
    rev: Seq<Seq<char>>,
    unk: usize,
    space: usize,
    ws: Seq<Seq<char>>,
    bos: usize,
    eos: usize,
    pad: usize,
    skip: bool,
)
    requires
        decode_piece(rev, space, skip, bos, eos, pad) == " "@,
        forall|i: int| 0 <= i < ws.len() ==> decode_piece(rev, word_id(vocab, unk, #[trigger] ws[i]), skip, bos, eos, pad) == ws[i],
    ensures
        decode_all(rev, word_ids(vocab, unk, space, ws), skip, bos, eos, pad) == spaced_words(ws),
    decreases ws.len(),
{
    if ws.len() > 0 {
        let p = ws.drop_last();
        assert forall|i: int| 0 <= i < p.len() implies decode_piece(rev, word_id(vocab, unk, #[trigger] p[i]), skip, bos, eos, pad) == p[i] by {
            assert(p[i] == ws[i]);
        }
        lemma_decode_word_ids(vocab, rev, unk, space, p, bos, eos, pad, skip);
        let a = word_ids(vocab, unk, space, p);
        let id = word_id(vocab, unk, ws.last());
        let all = a + seq![id, space];
        assert(word_ids(vocab, unk, space, ws) == all);
        assert(all.drop_last() =~= a.push(id));
        assert(a.push(id).drop_last() =~= a);
        assert(all.last() == space);
        assert(a.push(id).last() == id);
        assert(decode_piece(rev, id, skip, bos, eos, pad) == ws[ws.len() - 1]);
        assert(decode_all(rev, a.push(id), skip, bos, eos, pad) == decode_all(rev, a, skip, bos, eos, pad)
            + decode_piece(rev, id, skip, bos, eos, pad));
        assert(decode_all(rev, all, skip, bos, eos, pad) == decode_all(rev, a.push(id), skip, bos, eos, pad)
            + decode_piece(rev, space, skip, bos, eos, pad));
    }
}

/// Where a word of `ws` lands in `insert_all`: at `start + j` for some `j`
/// with `ws[j]` the word; a key not in `ws` keeps its entry in `m`.
pub proof fn lemma_insert_all(m: Map<Seq<char>, usize>, ws: Seq<Seq<char>>, start: nat, k: Seq<char>)
    ensures
        ws.contains(k) ==> (insert_all(m, ws, start).contains_key(k) && exists|j: int| 0 <= j < ws.len() && ws[j] == k
            && insert_all(m, ws, start)[k] == (start + j) as usize),
        !ws.contains(k) ==> (insert_all(m, ws, start).contains_key(k) == m.contains_key(k)
            && (m.contains_key(k) ==> insert_all(m, ws, start)[k] == m[k])),
    decreases ws.len(),
{
    if ws.len() > 0 {
        let p = ws.drop_last();
        lemma_insert_all(m, p, start, k);
        if k == ws.last() {
            assert(ws[ws.len() - 1] == k);
        } else {
            if ws.contains(k) {
                let j = choose|j: int| 0 <= j < ws.len() && ws[j] == k;
                assert(p[j] == k);
            }
            if p.contains(k) {
                let j = choose|j: int| 0 <= j < p.len() && p[j] == k;
                assert(ws[j] == k);
            }
        }
    }
}

/// In a vocabulary built from `words`, a listed word that is neither a
/// placeholder nor `<space>` decodes to itself, and the `<space>` id decodes
/// to a space.
pub proof fn lemma_word_vocab_decodes(words: Seq<Seq<char>>, w: Seq<char>)
    requires
        words.len() + 5 <= usize::MAX,
        words.contains(w),
        !is_placeholder(w),
        w != "<space>"@,
    ensures
        ({
            let vocab = insert_all(pairs_map(word_specials(), ids_upto(5)), words, 5);
            let rev = word_special_texts() + words;
            &&& vocab.contains_key(w)
            &&& decode_piece(rev, vocab[w], false, 0, 1, 2) == w
            &&& vocab[w] >= 5
            &&& vocab.contains_key("<space>"@)
            &&& decode_piece(rev, vocab["<space>"@], false, 0, 1, 2) == " "@
            &&& vocab["<space>"@] >= 4
        }),
{
    reveal_strlit("<s>");
    reveal_strlit("</s>");
    reveal_strlit("<pad>");
    reveal_strlit("<unk>");
    reveal_strlit("<space>");
    reveal_strlit(" ");
    reveal_strlit("token_");
    let base = pairs_map(word_specials(), ids_upto(5));
    let vocab = insert_all(base, words, 5);
    let rev = word_special_texts() + words;
    lemma_insert_all(base, words, 5, w);
    let j = choose|j: int| 0 <= j < words.len() && words[j] == w && vocab[w] == (5 + j) as usize;
    assert(rev[5 + j] == words[j]);
    lemma_insert_all(base, words, 5, "<space>"@);
    if words.contains("<space>"@) {
        let js = choose|js: int| 0 <= js < words.len() && words[js] == "<space>"@ && vocab["<space>"@] == (5 + js) as usize;
        assert(rev[5 + js] == words[js]);
    } else {
        lemma_word_specials_distinct();
        lemma_pairs_map_at(word_specials(), ids_upto(5), 4);
        assert(rev[4] == " "@);
        assert(" "@ != "<space>"@);
        assert(!is_placeholder(" "@));
    }
}

/// Round trip: for a vocabulary built from `words`, encoding a text whose
/// words are all listed (none a placeholder or `<space>`) without special
/// tokens and decoding the ids without skipping gives the text's words back,
/// each followed by a space.
pub proof fn lemma_round_trip(words: Seq<Seq<char>>, text: Seq<char>)
    requires
        words.len() + 5 <= usize::MAX,
        forall|i: int| 0 <= i < ws_words(text).len() ==> {
            &&& words.contains(#[trigger] ws_words(text)[i])
            &&& !is_placeholder(ws_words(text)[i])
            &&& ws_words(text)[i] != "<space>"@
        },
    ensures
        ({
            let vocab = insert_all(pairs_map(word_specials(), ids_upto(5)), words, 5);
            let rev = word_special_texts() + words;
            decode_all(rev, word_ids(vocab, 3, vocab["<space>"@], ws_words(text)), false, 0, 1, 2)
                == spaced_words(ws_words(text))
        }),
{
    let vocab = insert_all(pairs_map(word_specials(), ids_upto(5)), words, 5);
    let rev = word_special_texts() + words;
    let ws = ws_words(text);
    if ws.len() > 0 {
        lemma_word_vocab_decodes(words, ws[0]);
    } else {
        assert(word_ids(vocab, 3, vocab["<space>"@], ws) =~= Seq::<usize>::empty());
        assert(decode_all(rev, Seq::<usize>::empty(), false, 0, 1, 2) =~= Seq::<char>::empty());
        return;
    }
    assert forall|i: int| 0 <= i < ws.len() implies decode_piece(rev, word_id(vocab, 3, #[trigger] ws[i]), false, 0, 1, 2) == ws[i] by {
        lemma_word_vocab_decodes(words, ws[i]);
    }
    lemma_decode_word_ids(vocab, rev, 3, vocab["<space>"@], ws, 0, 1, 2, false);
}

/// Decoding an id followed by more ids gives the first id's text followed
/// by the text of the rest.
proof fn lemma_decode_front(rev: Seq<Seq<char>>, x: usize, ts: Seq<usize>, skip: bool, bos: usize, eos: usize, pad: usize)
    ensures
        decode_all(rev, seq![x] + ts, skip, bos, eos, pad) == decode_piece(rev, x, skip, bos, eos, pad)
            + decode_all(rev, ts, skip, bos, eos, pad),
    decreases ts.len(),
{
    if ts.len() == 0 {
        assert(seq![x] + ts =~= seq![x]);
        assert(seq![x].drop_last() =~= Seq::<usize>::empty());
        assert(decode_all(rev, Seq::<usize>::empty(), skip, bos, eos, pad) =~= Seq::<char>::empty());
        assert(decode_piece(rev, x, skip, bos, eos, pad) + Seq::<char>::empty() =~= decode_piece(rev, x, skip, bos, eos, pad));
    } else {
        lemma_decode_front(rev, x, ts.drop_last(), skip, bos, eos, pad);
        assert((seq![x] + ts).drop_last() =~= seq![x] + ts.drop_last());
        assert((seq![x] + ts).last() == ts.last());
        let a = decode_piece(rev, x, skip, bos, eos, pad);
        let b = decode_all(rev, ts.drop_last(), skip, bos, eos, pad);
        let c = decode_piece(rev, ts.last(), skip, bos, eos, pad);
        assert(a + b + c =~= a + (b + c));
    }
}

/// Round trip with special tokens: for a vocabulary built from `words`,
/// encoding a text whose words are all listed (none a placeholder or
/// `<space>`) with `<s>` and `</s>` added, then decoding with special
/// tokens skipped, gives the text's words back, each followed by a space.
pub proof fn lemma_round_trip_special(words: Seq<Seq<char>>, text: Seq<char>)
    requires
        words.len() + 5 <= usize::MAX,
        forall|i: int| 0 <= i < ws_words(text).len() ==> {
            &&& words.contains(#[trigger] ws_words(text)[i])
            &&& !is_placeholder(ws_words(text)[i])
            &&& ws_words(text)[i] != "<space>"@
        },
    ensures
        ({
            let vocab = insert_all(pairs_map(word_specials(), ids_upto(5)), words, 5);
            let rev = word_special_texts() + words;
            decode_all(rev, seq![0usize] + word_ids(vocab, 3, vocab["<space>"@], ws_words(text)) + seq![1usize], true, 0, 1, 2)
                == spaced_words(ws_words(text))
        }),
{
    let vocab = insert_all(pairs_map(word_specials(), ids_upto(5)), words, 5);
    let rev = word_special_texts() + words;
    let ws = ws_words(text);
    let space = vocab["<space>"@];
    let mid = word_ids(vocab, 3, space, ws);
    if ws.len() > 0 {
        lemma_word_vocab_decodes(words, ws[0]);
        assert forall|i: int| 0 <= i < ws.len() implies decode_piece(rev, word_id(vocab, 3, #[trigger] ws[i]), true, 0, 1, 2) == ws[i] by {
            lemma_word_vocab_decodes(words, ws[i]);
        }
        lemma_decode_word_ids(vocab, rev, 3, space, ws, 0, 1, 2, true);
    } else {
        assert(mid =~= Seq::<usize>::empty());
        assert(decode_all(rev, mid, true, 0, 1, 2) =~= Seq::<char>::empty());
        assert(spaced_words(ws) =~= Seq::<char>::empty());
    }
    lemma_decode_front(rev, 0, mid, true, 0, 1, 2);
    let all = seq![0usize] + mid + seq![1usize];
    assert(all.drop_last() =~= seq![0usize] + mid);
    assert(all.last() == 1usize);
    assert(decode_piece(rev, 0, true, 0, 1, 2) =~= Seq::<char>::empty());
    assert(decode_piece(rev, 1, true, 0, 1, 2) =~= Seq::<char>::empty());
    assert(decode_all(rev, all, true, 0, 1, 2) =~= decode_all(rev, mid, true, 0, 1, 2));
}

impl SimpleTokenizer {
    #[verifier::type_invariant]
    closed spec fn wf(self) -> bool {
        &&& self.vocab_keys@.len() == self.vocab_ids@.len()
        &&& key_chars(self.vocab_keys@).no_duplicates()
    }

    /// The vocabulary: word to id.
    pub closed spec fn vocab(&self) -> Map<Seq<char>, usize> {
        pairs_map(key_chars(self.vocab_keys@), self.vocab_ids@)
    }

    /// The text of each id, by id.
    pub closed spec fn reverse(&self) -> Seq<Seq<char>> {
        self.reverse_vocab@.map_values(|s: String| s@)
    }

    pub closed spec fn bos(&self) -> usize {
        self.bos_token
    }

    pub closed spec fn eos(&self) -> usize {
        self.eos_token
    }

    pub closed spec fn pad(&self) -> usize {
        self.pad_token
    }

    pub closed spec fn unk(&self) -> usize {
        self.unk_token
    }

    /// A numbered vocabulary of `vocab_size` ids (at least the four special
    /// ones): `<s>`, `</s>`, `<pad>`, `<unk>`, then `token_4`, `token_5`, ...
    pub fn new(vocab_size: usize) -> (t: Self)
        ensures
            ({
                let m: nat = if vocab_size > 4 { vocab_size as nat } else { 4 };
                &&& t.vocab() == pairs_map(numbered_texts(m), ids_upto(m))
                &&& t.reverse() == numbered_texts(m)
            }),
            t.bos() == 0,
            t.eos() == 1,
            t.pad() == 2,
            t.unk() == 3,
    {
        proof {
            reveal_strlit("<s>");
            reveal_strlit("</s>");
            reveal_strlit("<pad>");
            reveal_strlit("<unk>");
            reveal_strlit("token_");
        }
        let mut keys: Vec<Vec<char>> = Vec::new();
        let mut ids: Vec<usize> = Vec::new();
        let mut rev: Vec<String> = Vec::new();
        keys.push(str_chars("<s>"));
        keys.push(str_chars("</s>"));
        keys.push(str_chars("<pad>"));
        keys.push(str_chars("<unk>"));
        ids.push(0);
        ids.push(1);
        ids.push(2);
        ids.push(3);
        rev.push(String::from_str("<s>"));
        rev.push(String::from_str("</s>"));
        rev.push(String::from_str("<pad>"));
        rev.push(String::from_str("<unk>"));
        let mut i: usize = 4;
        assert(key_chars(keys@) =~= numbered_texts(4));
        assert(ids@ =~= ids_upto(4));
        assert(rev@.map_values(|s: String| s@) =~= numbered_texts(4));
        while i < vocab_size
            invariant
                4 <= i,
                i <= vocab_size || i == 4,
                key_chars(keys@) == numbered_texts(i as nat),
                ids@ == ids_upto(i as nat),
                rev@.map_values(|s: String| s@) == numbered_texts(i as nat),
            decreases vocab_size - i,
        {
            let mut key = str_chars("token_");
            let mut digits = decimal_chars(i);
            key.append(&mut digits);
            let mut text = String::from_str("token_");
            text.append(usize_to_string(i).as_str());
            assert(key@ == numbered_text(i as nat));
            assert(text@ == numbered_text(i as nat));
            let ghost kv = keys@;
            let ghost rv = rev@;
            keys.push(key);
            ids.push(i);
            rev.push(text);
            proof {
                assert(key_chars(keys@) =~= key_chars(kv).push(numbered_text(i as nat)));
                assert(rev@.map_values(|s: String| s@) =~= rv.map_values(|s: String| s@).push(numbered_text(i as nat)));
            }
            i = i + 1;
            assert(key_chars(keys@) =~= numbered_texts(i as nat));
            assert(ids@ =~= ids_upto(i as nat));
            assert(rev@.map_values(|s: String| s@) =~= numbered_texts(i as nat));
        }
        proof {
            lemma_numbered_distinct(i as nat);
        }
        SimpleTokenizer {
            vocab_keys: keys,
            vocab_ids: ids,
            reverse_vocab: rev,
            bos_token: 0,
            eos_token: 1,
            pad_token: 2,
            unk_token: 3,
        }
    }

    /// A vocabulary of the special tokens, `<space>` (id 4, decoded as a
    /// space) and then `words`, numbered from 5 in order; a word given twice,
    /// or equal to a special key, is looked up as its last id.
    pub fn from_simple_words(words: Vec<&str>) -> (t: Self)
        requires
            words@.len() + 5 <= usize::MAX,
        ensures
            t.vocab() == insert_all(pairs_map(word_specials(), ids_upto(5)), words@.map_values(|w: &str| w@), 5),
            t.reverse() == word_special_texts() + words@.map_values(|w: &str| w@),
            t.bos() == 0,
            t.eos() == 1,
            t.pad() == 2,
            t.unk() == 3,
    {
        proof {
            reveal_strlit("<s>");
            reveal_strlit("</s>");
            reveal_strlit("<pad>");
            reveal_strlit("<unk>");
            reveal_strlit("<space>");
            reveal_strlit(" ");
            lemma_word_specials_distinct();
        }
        let mut keys: Vec<Vec<char>> = Vec::new();
        let mut ids: Vec<usize> = Vec::new();
        let mut rev: Vec<String> = Vec::new();
        keys.push(str_chars("<s>"));
        keys.push(str_chars("</s>"));
        keys.push(str_chars("<pad>"));
        keys.push(str_chars("<unk>"));
        keys.push(str_chars("<space>"));
        ids.push(0);
        ids.push(1);
        ids.push(2);
        ids.push(3);
        ids.push(4);
        rev.push(String::from_str("<s>"));
        rev.push(String::from_str("</s>"));
        rev.push(String::from_str("<pad>"));
        rev.push(String::from_str("<unk>"));
        rev.push(String::from_str(" "));
        assert(key_chars(keys@) =~= word_specials());
        assert(ids@ =~= ids_upto(5));
        assert(rev@.map_values(|s: String| s@) =~= word_special_texts());
        let ghost ws = words@.map_values(|w: &str| w@);
        let ghost base = pairs_map(word_specials(), ids_upto(5));
        let mut idx: usize = 5;
        let mut j: usize = 0;
        assert(ws.take(0) =~= Seq::<Seq<char>>::empty());
        while j < words.len()
            invariant
                words@.len() + 5 <= usize::MAX,
                ws == words@.map_values(|w: &str| w@),
                base == pairs_map(word_specials(), ids_upto(5)),
                j <= words@.len(),
                idx == j + 5,
                keys@.len() == ids@.len(),
                key_chars(keys@).no_duplicates(),
                pairs_map(key_chars(keys@), ids@) == insert_all(base, ws.take(j as int), 5),
                rev@.map_values(|s: String| s@) == word_special_texts() + ws.take(j as int),
            decreases words@.len() - j,
        {
            let w = words[j];
            let key = str_chars(w);
            vocab_insert(&mut keys, &mut ids, key, idx);
            let ghost rv = rev@;
            let text = String::from_str(w);
            rev.push(text);
            proof {
                assert(ws.take(j + 1).drop_last() =~= ws.take(j as int));
                assert(ws.take(j + 1).last() == w@);
                assert(rev@.map_values(|s: String| s@) =~= rv.map_values(|s: String| s@).push(text@));
                assert(ws.take(j + 1) =~= ws.take(j as int).push(w@));
                assert(rev@.map_values(|s: String| s@) =~= word_special_texts() + ws.take(j + 1));
            }
            idx = idx + 1;
            j = j + 1;
        }
        assert(ws.take(words@.len() as int) =~= ws);
        SimpleTokenizer {
            vocab_keys: keys,
            vocab_ids: ids,
            reverse_vocab: rev,
            bos_token: 0,
            eos_token: 1,
            pad_token: 2,
            unk_token: 3,
        }
    }

    /// The vocabulary id of `w`, if it has one.
    fn lookup(&self, w: &Vec<char>) -> (r: Option<usize>)
        ensures
            r == (if self.vocab().contains_key(w@) { Some(self.vocab()[w@]) } else { None::<usize> }),
    {
        proof {
            use_type_invariant(self);
        }
        let ghost k = key_chars(self.vocab_keys@);
        let mut i: usize = 0;
        while i < self.vocab_keys.len()
            invariant
                k == key_chars(self.vocab_keys@),
                k.no_duplicates(),
                self.vocab_keys@.len() == self.vocab_ids@.len(),
                i <= k.len(),
                forall|j: int| 0 <= j < i ==> k[j] != w@,
            decreases k.len() - i,
        {
            if chars_eq(&self.vocab_keys[i], w) {
                proof {
                    lemma_pairs_map_at(k, self.vocab_ids@, i as int);
                }
                return Some(self.vocab_ids[i]);
            }
            i = i + 1;
        }
        proof {
            if k.contains(w@) {
                let j = choose|j: int| 0 <= j < k.len() && k[j] == w@;
                assert(k[j] != w@);
            }
        }
        None
    }

    /// The id of `word` in the vocabulary, if it has one.
    pub fn token_id(&self, word: &str) -> (r: Option<usize>)
        ensures
            r == (if self.vocab().contains_key(word@) { Some(self.vocab()[word@]) } else { None::<usize> }),
    {
        self.lookup(&str_chars(word))
    }

    /// The ids of the whitespace-separated words of `text`: each word's id
    /// (`<unk>`'s for an unknown word) followed by `<space>`'s, between `<s>`
    /// and `</s>` when `add_special_tokens` is set. A text with a word needs
    /// `<space>` in the vocabulary.
    pub fn encode(&self, text: &str, add_special_tokens: bool) -> (r: Vec<usize>)
        requires
            ws_words(text@).len() > 0 ==> self.vocab().contains_key("<space>"@),
        ensures
            r@ == (if add_special_tokens { seq![self.bos()] } else { Seq::empty() })
                + word_ids(self.vocab(), self.unk(), self.vocab()["<space>"@], ws_words(text@))
                + (if add_special_tokens { seq![self.eos()] } else { Seq::empty() }),
    {
        let ghost vocab = self.vocab();
        let ghost space_id = vocab["<space>"@];
        let ghost head: Seq<usize> = if add_special_tokens { seq![self.bos_token] } else { Seq::empty() };
        let mut tokens: Vec<usize> = Vec::new();
        if add_special_tokens {
            tokens.push(self.bos_token);
        }
        assert(tokens@ =~= head);
        let space = self.lookup(&str_chars("<space>"));
        let chars = str_chars(text);
        let ghost cs = chars@;
        let mut cur: Vec<char> = Vec::new();
        let ghost mut done: Seq<Seq<char>> = Seq::empty();
        let mut p: usize = 0;
        assert(cs.take(0) =~= Seq::<char>::empty());
        while p < chars.len()
            invariant
                cs == chars@,
                cs == text@,
                vocab == self.vocab(),
                space_id == vocab["<space>"@],
                space == (if vocab.contains_key("<space>"@) { Some(space_id) } else { None::<usize> }),
                ws_words(text@).len() > 0 ==> vocab.contains_key("<space>"@),
                p <= cs.len(),
                ws_words(cs.take(p as int)) == (if cur@.len() > 0 { done.push(cur@) } else { done }),
                cur@.len() > 0 ==> (p > 0 && !is_white_space(cs[p - 1])),
                cur@.len() == 0 ==> (p == 0 || is_white_space(cs[p - 1])),
                tokens@ == head + word_ids(vocab, self.unk(), space_id, done),
            decreases cs.len() - p,
        {
            let c = chars[p];
            proof {
                lemma_ws_step(cs, p as int);
            }
            if white_space(c) {
                if cur.len() > 0 {
                    proof {
                        lemma_ws_mono(cs, p as int, cs.len() as int);
                        assert(cs.take(cs.len() as int) =~= cs);
                    }
                    let id = match self.lookup(&cur) {
                        Some(x) => x,
                        None => self.unk_token,
                    };
                    let sp = match space {
                        Some(x) => x,
                        None => 0,
                    };
                    tokens.push(id);
                    tokens.push(sp);
                    proof {
                        let d2 = done.push(cur@);
                        assert(d2.drop_last() =~= done);
                        assert(tokens@ =~= head + word_ids(vocab, self.unk(), space_id, d2));
                        done = d2;
                    }
                    cur = Vec::new();
                }
            } else {
                let ghost was_empty = cur@.len() == 0;
                proof {
                    if cur@.len() > 0 {
                        let w = done.push(cur@);
                        assert(w.update(w.len() - 1, w.last().push(c)) =~= done.push(cur@.push(c)));
                    }
                }
                cur.push(c);
                proof {
                    if was_empty {
                        assert(cur@ =~= seq![c]);
                    }
                }
            }
            p = p + 1;
        }
        assert(cs.take(cs.len() as int) =~= cs);
        if cur.len() > 0 {
            assert(ws_words(text@).len() > 0);
            let id = match self.lookup(&cur) {
                Some(x) => x,
                None => self.unk_token,
            };
            let sp = match space {
                Some(x) => x,
                None => 0,
            };
            tokens.push(id);
            tokens.push(sp);
            proof {
                let d2 = done.push(cur@);
                assert(d2.drop_last() =~= done);
                assert(tokens@ =~= head + word_ids(vocab, self.unk(), space_id, d2));
                done = d2;
            }
        }
        let ghost body = tokens@;
        if add_special_tokens {
            tokens.push(self.eos_token);
        }
        assert(tokens@ =~= body + (if add_special_tokens { seq![self.eos()] } else { Seq::<usize>::empty() }));
        tokens
    }

    /// The text of a sequence of ids: each id's text (a space for
    /// `<space>`, `?` for a placeholder or an unknown id), leaving out `<s>`,
    /// `</s>` and `<pad>` when `skip_special_tokens` is set.
    pub fn decode(&self, tokens: &[usize], skip_special_tokens: bool) -> (r: String)
        ensures
            r@ == decode_all(self.reverse(), tokens@, skip_special_tokens, self.bos(), self.eos(), self.pad()),
    {
        proof {
            reveal_strlit("<space>");
            reveal_strlit(" ");
            reveal_strlit("token_");
            reveal_strlit("?");
        }
        let ghost rv = self.reverse();
        let mut result = String::new();
        let mut i: usize = 0;
        assert(tokens@.take(0) =~= Seq::<usize>::empty());
        assert(result@ =~= Seq::<char>::empty());
        while i < tokens.len()
            invariant
                rv == self.reverse(),
                rv.len() == self.reverse_vocab@.len(),
                i <= tokens@.len(),
                result@ == decode_all(rv, tokens@.take(i as int), skip_special_tokens, self.bos(), self.eos(), self.pad()),
            decreases tokens@.len() - i,
        {
            let t = tokens[i];
            assert(tokens@.take(i + 1).drop_last() =~= tokens@.take(i as int));
            if skip_special_tokens && (t == self.bos_token || t == self.eos_token || t == self.pad_token) {
                assert(decode_piece(rv, t, skip_special_tokens, self.bos(), self.eos(), self.pad()) =~= Seq::<char>::empty());
            } else if t < self.reverse_vocab.len() {
                let s = self.reverse_vocab[t].as_str();
                assert(s@ == rv[t as int]);
                if str_eq(s, "<space>") {
                    result.append(" ");
                } else if !starts_with(s, "token_") {
                    result.append(s);
                } else {
                    result.append("?");
                }
            } else {
                result.append("?");
            }
            i = i + 1;
        }
        assert(tokens@.take(tokens@.len() as int) =~= tokens@);
        result
    }

    pub fn bos_token_id(&self) -> (r: usize)
        ensures
            r == self.bos(),
    {
        self.bos_token
    }

    pub fn eos_token_id(&self) -> (r: usize)
        ensures
            r == self.eos(),
    {
        self.eos_token
    }

    pub fn pad_token_id(&self) -> (r: usize)
        ensures
            r == self.pad(),
    {
        self.pad_token
    }

    /// The number of distinct words in the vocabulary.
    pub fn vocab_size(&self) -> (r: usize)
        ensures
            r == self.vocab().dom().len(),
    {
        proof {
            use_type_invariant(self);
            let k = key_chars(self.vocab_keys@);
            k.unique_seq_to_set();
            assert(self.vocab().dom() =~= k.to_set());
        }
        self.vocab_keys.len()
    }
}

} // verus!