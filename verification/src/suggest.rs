//! The catalog of candidate words and the prefix query on it.
//!
//! A word is suggested for a token when the lowercase form of the word starts
//! with the lowercase form of the token. Suggestions come in the order of the
//! catalog. An empty token suggests nothing.

use vstd::prelude::*;
use crate::text::{chars_of, lowercase};

verus! {

/// The texts of `words`, in order.
pub open spec fn texts(words: Seq<String>) -> Seq<Seq<char>> {
    Seq::new(words.len(), |i: int| words[i]@)
}

/// `word` is suggested for `token`.
pub open spec fn is_suggested(token: Seq<char>, word: Seq<char>) -> bool {
    lowercase(token).is_prefix_of(lowercase(word))
}

/// The test "is suggested for `token`" as a predicate on words.
pub open spec fn suggested_for(token: Seq<char>) -> spec_fn(Seq<char>) -> bool {
    |word: Seq<char>| is_suggested(token, word)
}

/// The words of `words` that are suggested for `token`, in the order of
/// `words`; none for an empty token.
pub open spec fn suggestions_for(token: Seq<char>, words: Seq<Seq<char>>) -> Seq<Seq<char>> {
    if token.len() == 0 {
        Seq::empty()
    } else {
        words.filter(suggested_for(token))
    }
}

/// The words whose key starts with `prefix`, in the order of `words`. The key
/// of `words[i]` is `keys[i]`; a word without a key is left out.
pub open spec fn matching(prefix: Seq<char>, keys: Seq<Seq<char>>, words: Seq<Seq<char>>) -> Seq<
    Seq<char>,
>
    decreases words.len(),
{
    if words.len() == 0 {
        Seq::empty()
    } else {
        let rest = matching(prefix, keys, words.drop_last());
        let last = words.len() - 1;
        if last < keys.len() && prefix.is_prefix_of(keys[last]) {
            rest.push(words[last])
        } else {
            rest
        }
    }
}

/// `words` without the words that occurred before: of equal words the first
/// stays, and the order of what stays is that of `words`.
pub open spec fn without_repeats(words: Seq<Seq<char>>) -> Seq<Seq<char>>
    decreases words.len(),
{
    if words.len() == 0 {
        Seq::empty()
    } else {
        let rest = without_repeats(words.drop_last());
        if words.drop_last().contains(words.last()) {
            rest
        } else {
            rest.push(words.last())
        }
    }
}

/// Selecting by the lowercase forms as keys is the prefix query.
pub proof fn lemma_matching_lowercase(token: Seq<char>, keys: Seq<Seq<char>>, words: Seq<Seq<char>>)
    requires
        keys.len() >= words.len(),
        forall|i: int| 0 <= i < words.len() ==> keys[i] == lowercase(#[trigger] words[i]),
    ensures
        matching(lowercase(token), keys, words) == words.filter(suggested_for(token)),
    decreases words.len(),
{
    reveal(Seq::filter);
    if words.len() > 0 {
        lemma_matching_lowercase(token, keys, words.drop_last());
    }
}

/// Dropping repeats loses no word, adds none, and leaves no word twice.
pub proof fn lemma_without_repeats(words: Seq<Seq<char>>)
    ensures
        without_repeats(words).no_duplicates(),
        forall|w: Seq<char>| #[trigger] without_repeats(words).contains(w) ==> words.contains(w),
        forall|w: Seq<char>| #[trigger] words.contains(w) ==> without_repeats(words).contains(w),
        without_repeats(words).len() <= words.len(),
    decreases words.len(),
{
    if words.len() > 0 {
        let front = words.drop_last();
        let last = words.last();
        lemma_without_repeats(front);
        let kept = without_repeats(front);
        let all = without_repeats(words);
        assert forall|w: Seq<char>| all.contains(w) implies words.contains(w) by {
            let i = choose|i: int| 0 <= i < all.len() && all[i] == w;
            if i < kept.len() {
                assert(kept[i] == w);
                assert(kept.contains(w));
                let j = choose|j: int| 0 <= j < front.len() && front[j] == w;
                assert(words[j] == w);
            } else {
                assert(words[words.len() - 1] == w);
            }
        }
        assert forall|w: Seq<char>| words.contains(w) implies all.contains(w) by {
            let j = choose|j: int| 0 <= j < words.len() && words[j] == w;
            if j < front.len() {
                assert(front[j] == w);
            }
            if front.contains(w) {
                assert(kept.contains(w));
                let i = choose|i: int| 0 <= i < kept.len() && kept[i] == w;
                assert(all[i] == w);
            } else {
                assert(w == last);
                assert(all[all.len() - 1] == w);
            }
        }
        if !front.contains(last) {
            assert forall|i: int, j: int|
                0 <= i < all.len() && 0 <= j < all.len() && i != j implies all[i] != all[j] by {
                if i == kept.len() {
                    assert(kept[j] == all[j]);
                    assert(kept.contains(all[j]));
                } else if j == kept.len() {
                    assert(kept[i] == all[i]);
                    assert(kept.contains(all[i]));
                } else {
                    assert(kept[i] == all[i] && kept[j] == all[j]);
                }
            }
        }
    }
}

/// A catalog in which no word occurs twice is kept as it is.
pub proof fn lemma_without_repeats_of_distinct(words: Seq<Seq<char>>)
    requires
        words.no_duplicates(),
    ensures
        without_repeats(words) == words,
    decreases words.len(),
{
    if words.len() > 0 {
        let front = words.drop_last();
        lemma_without_repeats_of_distinct(front);
        if front.contains(words.last()) {
            let j = choose|j: int| 0 <= j < front.len() && front[j] == words.last();
            assert(words[j] == words[words.len() - 1]);
        }
        assert(front.push(words.last()) =~= words);
    }
}

/// `first` occurs in `words` somewhere in front of an occurrence of `second`.
pub open spec fn occurs_before(words: Seq<Seq<char>>, first: Seq<char>, second: Seq<char>) -> bool {
    exists|i: int, j: int|
        0 <= i < j < words.len() && #[trigger] words[i] == first && #[trigger] words[j] == second
}

/// Filtering keeps the order of the words: of two words that stay, the earlier
/// one comes from an earlier place.
proof fn lemma_filter_keeps_order(words: Seq<Seq<char>>, pred: spec_fn(Seq<char>) -> bool)
    ensures
        forall|a: int, b: int|
            0 <= a < b < words.filter(pred).len() ==> occurs_before(
                words,
                #[trigger] words.filter(pred)[a],
                #[trigger] words.filter(pred)[b],
            ),
    decreases words.len(),
{
    reveal(Seq::filter);
    if words.len() > 0 {
        let front = words.drop_last();
        let kept = front.filter(pred);
        let all = words.filter(pred);
        lemma_filter_keeps_order(front, pred);
        assert forall|a: int, b: int| 0 <= a < b < all.len() implies occurs_before(
            words,
            #[trigger] all[a],
            #[trigger] all[b],
        ) by {
            if b < kept.len() {
                assert(occurs_before(front, kept[a], kept[b]));
                let (i, j) = choose|i: int, j: int|
                    0 <= i < j < front.len() && #[trigger] front[i] == kept[a]
                        && #[trigger] front[j] == kept[b];
                assert(words[i] == all[a] && words[j] == all[b]);
            } else {
                assert(kept[a] == all[a]);
                assert(kept.contains(all[a]));
                front.lemma_filter_contains_rev(pred, all[a]);
                let i = choose|i: int| 0 <= i < front.len() && front[i] == all[a];
                assert(words[i] == all[a] && words[words.len() - 1] == all[b]);
            }
        }
    }
}

/// The suggestions are exactly the catalog words that pass the test, and they
/// come in the order of the catalog.
pub proof fn lemma_suggestions_in_catalog_order(token: Seq<char>, words: Seq<Seq<char>>)
    ensures
        suggestions_for(token, words).len() <= words.len(),
        forall|i: int|
            0 <= i < suggestions_for(token, words).len() ==> words.contains(
                #[trigger] suggestions_for(token, words)[i],
            ) && is_suggested(token, suggestions_for(token, words)[i]),
        forall|j: int|
            0 <= j < words.len() && token.len() > 0 && is_suggested(token, #[trigger] words[j])
                ==> suggestions_for(token, words).contains(words[j]),
        forall|a: int, b: int|
            0 <= a < b < suggestions_for(token, words).len() ==> occurs_before(
                words,
                #[trigger] suggestions_for(token, words)[a],
                #[trigger] suggestions_for(token, words)[b],
            ),
{
    broadcast use vstd::seq_lib::group_filter_ensures;

    if token.len() > 0 {
        let pred = suggested_for(token);
        let found = words.filter(pred);
        lemma_filter_keeps_order(words, pred);
        assert forall|i: int| 0 <= i < found.len() implies words.contains(#[trigger] found[i])
            && is_suggested(token, found[i]) by {
            assert(found.contains(found[i]));
            words.lemma_filter_contains_rev(pred, found[i]);
            assert(pred(found[i]));
        }
        assert forall|j: int|
            0 <= j < words.len() && is_suggested(token, #[trigger] words[j]) implies found.contains(
            words[j],
        ) by {
            assert(pred(words[j]));
        }
    }
}

/// `text` starts with `prefix`.
pub fn starts_with(text: &Vec<char>, prefix: &Vec<char>) -> (found: bool)
    ensures
        found == prefix@.is_prefix_of(text@),
{
    if prefix.len() > text.len() {
        return false;
    }
    let mut i: usize = 0;
    while i < prefix.len()
        invariant
            i <= prefix.len() <= text.len(),
            forall|k: int| 0 <= k < i ==> prefix[k] == text[k],
        decreases prefix.len() - i,
    {
        if prefix[i] != text[i] {
            assert(text@.subrange(0, prefix.len() as int)[i as int] != prefix@[i as int]);
            return false;
        }
        i += 1;
    }
    assert(prefix@ =~= text@.subrange(0, prefix.len() as int));
    true
}

/// The words whose key starts with `prefix`, in the order of `words`. The key
/// of `words[i]` is `keys[i]`; a word without a key is left out.
pub fn matching_words(prefix: &str, keys: &Vec<String>, words: &Vec<String>) -> (found: Vec<String>)
    ensures
        texts(found@) == matching(prefix@, texts(keys@), texts(words@)),
{
    let prefix_chars = chars_of(prefix);
    let mut found: Vec<String> = Vec::new();
    let mut i: usize = 0;
    assert(texts(words@).take(0) =~= Seq::empty());
    assert(texts(found@) =~= Seq::empty());
    while i < words.len()
        invariant
            i <= words.len(),
            prefix_chars@ == prefix@,
            texts(found@) == matching(prefix@, texts(keys@), texts(words@).take(i as int)),
        decreases words.len() - i,
    {
        let ghost before = texts(found@);
        let ghost next = texts(words@).take(i + 1);
        assert(next.drop_last() =~= texts(words@).take(i as int));
        assert(next[i as int] == words[i as int]@);
        if i < keys.len() {
            let key_chars = chars_of(keys[i].as_str());
            assert(texts(keys@)[i as int] == key_chars@);
            if starts_with(&key_chars, &prefix_chars) {
                found.push(words[i].clone());
                assert(texts(found@) =~= before.push(words[i as int]@));
            }
        }
        i += 1;
    }
    assert(texts(words@).take(words.len() as int) =~= texts(words@));
    found
}

/// The lowercase form of each word, in order.
pub fn lowercase_all(words: &Vec<String>) -> (keys: Vec<String>)
    ensures
        keys.len() == words.len(),
        forall|i: int| 0 <= i < words.len() ==> (#[trigger] keys[i])@ == lowercase(words[i]@),
{
    let mut keys: Vec<String> = Vec::new();
    let mut i: usize = 0;
    while i < words.len()
        invariant
            i <= words.len(),
            keys.len() == i,
            forall|k: int| 0 <= k < i ==> (#[trigger] keys[k])@ == lowercase(words[k]@),
        decreases words.len() - i,
    {
        keys.push(words[i].as_str().to_lowercase());
        i += 1;
    }
    keys
}

/// The words of `words` that are suggested for `token`: those whose lowercase
/// form starts with the lowercase form of `token`, in the order of `words`.
/// An empty token has no suggestions.
pub fn get_suggestions(token: String, words: &Vec<String>) -> (suggestions: Vec<String>)
    ensures
        texts(suggestions@) == suggestions_for(token@, texts(words@)),
{
    if token.as_str().unicode_len() == 0 {
        let suggestions: Vec<String> = Vec::new();
        assert(texts(suggestions@) =~= Seq::empty());
        return suggestions;
    }
    let keys = lowercase_all(words);
    let prefix = token.as_str().to_lowercase();
    proof {
        assert forall|i: int| 0 <= i < texts(words@).len() implies texts(keys@)[i] == lowercase(
            #[trigger] texts(words@)[i],
        ) by {
            assert(keys[i]@ == lowercase(words[i]@));
        }
        lemma_matching_lowercase(token@, texts(keys@), texts(words@));
    }
    matching_words(prefix.as_str(), &keys, words)
}

/// `word` is one of `words`.
pub fn contains_word(words: &Vec<String>, word: &String) -> (found: bool)
    ensures
        found == texts(words@).contains(word@),
{
    let mut i: usize = 0;
    while i < words.len()
        invariant
            i <= words.len(),
            forall|k: int| 0 <= k < i ==> texts(words@)[k] != word@,
        decreases words.len() - i,
    {
        if words[i] == *word {
            assert(texts(words@)[i as int] == word@);
            return true;
        }
        i += 1;
    }
    false
}

/// The catalog of candidate words: no word occurs twice, and the words keep
/// the order in which the catalog listed them.
#[derive(Debug)]
pub struct SuggestionIndex {
    words: Vec<String>,
    keys: Vec<String>,
}

impl View for SuggestionIndex {
    type V = Seq<Seq<char>>;

    /// The words of the catalog, in order.
    closed spec fn view(&self) -> Seq<Seq<char>> {
        texts(self.words@)
    }
}

impl SuggestionIndex {
    /// Each word has its lowercase form as its key, and no word occurs twice.
    #[verifier::type_invariant]
    spec fn well_formed(self) -> bool {
        &&& self.keys.len() == self.words.len()
        &&& forall|i: int|
            0 <= i < self.words.len() ==> (#[trigger] self.keys[i])@ == lowercase(self.words[i]@)
        &&& texts(self.words@).no_duplicates()
    }

    /// The index of the words of `catalog`, in the order of `catalog`. Where a
    /// word occurs more than once, its first occurrence stays.
    pub fn new(catalog: Vec<String>) -> (index: SuggestionIndex)
        ensures
            index@ == without_repeats(texts(catalog@)),
            index@.no_duplicates(),
    {
        let mut words: Vec<String> = Vec::new();
        let mut i: usize = 0;
        assert(texts(catalog@).take(0) =~= Seq::empty());
        assert(texts(words@) =~= Seq::empty());
        while i < catalog.len()
            invariant
                i <= catalog.len(),
                texts(words@) == without_repeats(texts(catalog@).take(i as int)),
            decreases catalog.len() - i,
        {
            let ghost front = texts(catalog@).take(i as int);
            let ghost next = texts(catalog@).take(i + 1);
            let ghost before = texts(words@);
            assert(next.drop_last() =~= front);
            assert(next.last() == catalog[i as int]@);
            proof {
                lemma_without_repeats(front);
            }
            if !contains_word(&words, &catalog[i]) {
                words.push(catalog[i].clone());
                assert(texts(words@) =~= before.push(catalog[i as int]@));
            }
            i += 1;
        }
        assert(texts(catalog@).take(catalog.len() as int) =~= texts(catalog@));
        proof {
            lemma_without_repeats(texts(catalog@));
        }
        let keys = lowercase_all(&words);
        SuggestionIndex { words, keys }
    }

    /// The number of words in the catalog.
    pub fn len(&self) -> (len: usize)
        ensures
            len == self@.len(),
    {
        self.words.len()
    }

    /// The words of the catalog, in order; no word occurs twice.
    pub fn words(&self) -> (words: &Vec<String>)
        ensures
            texts(words@) == self@,
            self@.no_duplicates(),
    {
        proof {
            use_type_invariant(self);
        }
        &self.words
    }

    /// The words of the catalog that are suggested for `token`: those whose
    /// lowercase form starts with the lowercase form of `token`, in the order
    /// of the catalog. An empty token has no suggestions.
    pub fn filter(&self, token: &str) -> (suggestions: Vec<String>)
        ensures
            texts(suggestions@) == suggestions_for(token@, self@),
    {
        if token.unicode_len() == 0 {
            let suggestions: Vec<String> = Vec::new();
            assert(texts(suggestions@) =~= Seq::empty());
            return suggestions;
        }
        let prefix = token.to_lowercase();
        proof {
            use_type_invariant(self);
            assert forall|i: int| 0 <= i < texts(self.words@).len() implies texts(self.keys@)[i]
                == lowercase(#[trigger] texts(self.words@)[i]) by {
                assert(self.keys[i]@ == lowercase(self.words[i]@));
            }
            lemma_matching_lowercase(token@, texts(self.keys@), texts(self.words@));
        }
        matching_words(prefix.as_str(), &self.keys, &self.words)
    }
}

} // verus!
