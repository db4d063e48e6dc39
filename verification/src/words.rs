//! Random word lists for a test.
use vstd::prelude::*;

use crate::engine::texts;

use rand::seq::SliceRandom;

verus! {

broadcast use {vstd::seq_lib::group_to_multiset_ensures, vstd::array::group_array_axioms};

/// The thread-local random number generator of `rand`.
#[verifier::external_type_specification]
#[verifier::external_body]
pub struct ExThreadRng(rand::rngs::ThreadRng);

/// A handle to the thread's random number generator: `rand::thread_rng`.
/// Nothing is stated of it.
#[verifier::external_body]
fn thread_rng() -> rand::rngs::ThreadRng {
    rand::thread_rng()
}

/// Puts the words in a random order: `SliceRandom::shuffle` of `rand`,
/// which only swaps elements. The order that comes out is left unsaid;
/// the words themselves, with their multiplicities, stay.
#[verifier::external_body]
fn shuffle(words: &mut Vec<String>, rng: &mut rand::rngs::ThreadRng)
    ensures
        final(words)@.to_multiset() == old(words)@.to_multiset(),
{
    words.shuffle(rng);
}

/// The common English words that tests draw from, in dictionary order.
pub const ENGLISH_WORDS: [&'static str; 200] = [
    "a", "about", "act", "add", "after", "again", "air", "all", "also", "an", "and", "animal",
    "any", "are", "as", "ask", "at", "back", "been", "before", "big", "boy", "build", "but",
    "by", "call", "came", "can", "cause", "change", "come", "could", "day", "did", "differ",
    "do", "does", "down", "each", "earth", "end", "even", "every", "father", "find", "first",
    "follow", "for", "form", "from", "get", "give", "go", "good", "great", "had", "hand", "has",
    "have", "he", "head", "help", "her", "here", "high", "him", "his", "home", "house", "how",
    "if", "in", "is", "it", "just", "kind", "know", "land", "large", "light", "like", "line",
    "little", "live", "long", "look", "low", "made", "make", "man", "many", "may", "me", "mean",
    "men", "more", "most", "mother", "move", "much", "must", "my", "name", "near", "need",
    "new", "no", "now", "number", "of", "off", "old", "on", "one", "only", "or", "other", "our",
    "out", "over", "own", "part", "people", "picture", "place", "play", "point", "port", "put",
    "read", "right", "round", "said", "same", "say", "see", "self", "sentence", "set", "she",
    "show", "side", "small", "so", "some", "sound", "spell", "stand", "such", "take", "tell",
    "than", "that", "the", "their", "them", "then", "there", "these", "they", "thing", "think",
    "this", "three", "through", "time", "to", "too", "try", "turn", "two", "under", "up", "us",
    "use", "very", "want", "was", "water", "way", "we", "well", "went", "were", "what", "when",
    "where", "which", "who", "why", "will", "with", "word", "work", "world", "would", "write",
    "year", "you", "your",
];

/// The texts of the words that tests draw from.
pub open spec fn word_list() -> Seq<Seq<char>> {
    ENGLISH_WORDS@.map_values(|w: &str| w@)
}

/// `a` comes strictly before `b` in dictionary order, by character codes.
pub open spec fn precedes(a: Seq<char>, b: Seq<char>) -> bool
    decreases a.len(),
{
    if a.len() == 0 {
        b.len() > 0
    } else if b.len() == 0 {
        false
    } else if (a[0] as u32) < (b[0] as u32) {
        true
    } else if a[0] == b[0] {
        precedes(a.drop_first(), b.drop_first())
    } else {
        false
    }
}

/// A text does not come before itself.
proof fn lemma_precedes_irreflexive(a: Seq<char>)
    ensures
        !precedes(a, a),
    decreases a.len(),
{
    if a.len() > 0 {
        lemma_precedes_irreflexive(a.drop_first());
    }
}

/// Dictionary order is transitive.
proof fn lemma_precedes_transitive(a: Seq<char>, b: Seq<char>, c: Seq<char>)
    requires
        precedes(a, b),
        precedes(b, c),
    ensures
        precedes(a, c),
    decreases a.len(),
{
    if a.len() > 0 && b.len() > 0 && c.len() > 0 && a[0] == b[0] && b[0] == c[0] {
        lemma_precedes_transitive(a.drop_first(), b.drop_first(), c.drop_first());
    }
}

/// In a list whose neighbours are in dictionary order, every word comes
/// before every later one.
proof fn lemma_sorted_precedes(s: Seq<Seq<char>>, a: int, b: int)
    requires
        forall|k: int| 0 <= k < s.len() - 1 ==> precedes(#[trigger] s[k], s[k + 1]),
        0 <= a < b < s.len(),
    ensures
        precedes(s[a], s[b]),
    decreases b - a,
{
    assert(precedes(s[b - 1], s[b]));
    if a < b - 1 {
        lemma_sorted_precedes(s, a, b - 1);
        lemma_precedes_transitive(s[a], s[b - 1], s[b]);
    }
}

/// A list whose neighbours are in dictionary order holds no text twice.
proof fn lemma_sorted_differ(s: Seq<Seq<char>>)
    requires
        forall|k: int| 0 <= k < s.len() - 1 ==> precedes(#[trigger] s[k], s[k + 1]),
    ensures
        all_differ(s),
{
    assert forall|a: int, b: int| 0 <= a < b < s.len() implies s[a] != s[b] by {
        lemma_sorted_precedes(s, a, b);
        lemma_precedes_irreflexive(s[a]);
    }
}

/// Words 0 to 25 of the list are in dictionary order.
proof fn lemma_sorted_from_0()
    ensures
        forall|k: int| 0 <= k < 25 ==> precedes(#[trigger] word_list()[k], word_list()[k + 1]),
{
    reveal_with_fuel(precedes, 6);
    reveal_strlit("a");
    reveal_strlit("about");
    reveal_strlit("act");
    reveal_strlit("add");
    reveal_strlit("after");
    reveal_strlit("again");
    reveal_strlit("air");
    reveal_strlit("all");
    reveal_strlit("also");
    reveal_strlit("an");
    reveal_strlit("and");
    reveal_strlit("animal");
    reveal_strlit("any");
    reveal_strlit("are");
    reveal_strlit("as");
    reveal_strlit("ask");
    reveal_strlit("at");
    reveal_strlit("back");
    reveal_strlit("been");
    reveal_strlit("before");
    reveal_strlit("big");
    reveal_strlit("boy");
    reveal_strlit("build");
    reveal_strlit("but");
    reveal_strlit("by");
    reveal_strlit("call");
}

/// Words 25 to 50 of the list are in dictionary order.
proof fn lemma_sorted_from_25()
    ensures
        forall|k: int| 25 <= k < 50 ==> precedes(#[trigger] word_list()[k], word_list()[k + 1]),
{
    reveal_with_fuel(precedes, 6);
    reveal_strlit("call");
    reveal_strlit("came");
    reveal_strlit("can");
    reveal_strlit("cause");
    reveal_strlit("change");
    reveal_strlit("come");
    reveal_strlit("could");
    reveal_strlit("day");
    reveal_strlit("did");
    reveal_strlit("differ");
    reveal_strlit("do");
    reveal_strlit("does");
    reveal_strlit("down");
    reveal_strlit("each");
    reveal_strlit("earth");
    reveal_strlit("end");
    reveal_strlit("even");
    reveal_strlit("every");
    reveal_strlit("father");
    reveal_strlit("find");
    reveal_strlit("first");
    reveal_strlit("follow");
    reveal_strlit("for");
    reveal_strlit("form");
    reveal_strlit("from");
    reveal_strlit("get");
}

/// Words 50 to 75 of the list are in dictionary order.
proof fn lemma_sorted_from_50()
    ensures
        forall|k: int| 50 <= k < 75 ==> precedes(#[trigger] word_list()[k], word_list()[k + 1]),
{
    reveal_with_fuel(precedes, 6);
    reveal_strlit("get");
    reveal_strlit("give");
    reveal_strlit("go");
    reveal_strlit("good");
    reveal_strlit("great");
    reveal_strlit("had");
    reveal_strlit("hand");
    reveal_strlit("has");
    reveal_strlit("have");
    reveal_strlit("he");
    reveal_strlit("head");
    reveal_strlit("help");
    reveal_strlit("her");
    reveal_strlit("here");
    reveal_strlit("high");
    reveal_strlit("him");
    reveal_strlit("his");
    reveal_strlit("home");
    reveal_strlit("house");
    reveal_strlit("how");
    reveal_strlit("if");
    reveal_strlit("in");
    reveal_strlit("is");
    reveal_strlit("it");
    reveal_strlit("just");
    reveal_strlit("kind");
}

/// Words 75 to 100 of the list are in dictionary order.
proof fn lemma_sorted_from_75()
    ensures
        forall|k: int| 75 <= k < 100 ==> precedes(#[trigger] word_list()[k], word_list()[k + 1]),
{
    reveal_with_fuel(precedes, 6);
    reveal_strlit("kind");
    reveal_strlit("know");
    reveal_strlit("land");
    reveal_strlit("large");
    reveal_strlit("light");
    reveal_strlit("like");
    reveal_strlit("line");
    reveal_strlit("little");
    reveal_strlit("live");
    reveal_strlit("long");
    reveal_strlit("look");
    reveal_strlit("low");
    reveal_strlit("made");
    reveal_strlit("make");
    reveal_strlit("man");
    reveal_strlit("many");
    reveal_strlit("may");
    reveal_strlit("me");
    reveal_strlit("mean");
    reveal_strlit("men");
    reveal_strlit("more");
    reveal_strlit("most");
    reveal_strlit("mother");
    reveal_strlit("move");
    reveal_strlit("much");
    reveal_strlit("must");
}

/// Words 100 to 125 of the list are in dictionary order.
proof fn lemma_sorted_from_100()
    ensures
        forall|k: int| 100 <= k < 125 ==> precedes(#[trigger] word_list()[k], word_list()[k + 1]),
{
    reveal_with_fuel(precedes, 6);
    reveal_strlit("must");
    reveal_strlit("my");
    reveal_strlit("name");
    reveal_strlit("near");
    reveal_strlit("need");
    reveal_strlit("new");
    reveal_strlit("no");
    reveal_strlit("now");
    reveal_strlit("number");
    reveal_strlit("of");
    reveal_strlit("off");
    reveal_strlit("old");
    reveal_strlit("on");
    reveal_strlit("one");
    reveal_strlit("only");
    reveal_strlit("or");
    reveal_strlit("other");
    reveal_strlit("our");
    reveal_strlit("out");
    reveal_strlit("over");
    reveal_strlit("own");
    reveal_strlit("part");
    reveal_strlit("people");
    reveal_strlit("picture");
    reveal_strlit("place");
    reveal_strlit("play");
}

/// Words 125 to 150 of the list are in dictionary order.
proof fn lemma_sorted_from_125()
    ensures
        forall|k: int| 125 <= k < 150 ==> precedes(#[trigger] word_list()[k], word_list()[k + 1]),
{
    reveal_with_fuel(precedes, 6);
    reveal_strlit("play");
    reveal_strlit("point");
    reveal_strlit("port");
    reveal_strlit("put");
    reveal_strlit("read");
    reveal_strlit("right");
    reveal_strlit("round");
    reveal_strlit("said");
    reveal_strlit("same");
    reveal_strlit("say");
    reveal_strlit("see");
    reveal_strlit("self");
    reveal_strlit("sentence");
    reveal_strlit("set");
    reveal_strlit("she");
    reveal_strlit("show");
    reveal_strlit("side");
    reveal_strlit("small");
    reveal_strlit("so");
    reveal_strlit("some");
    reveal_strlit("sound");
    reveal_strlit("spell");
    reveal_strlit("stand");
    reveal_strlit("such");
    reveal_strlit("take");
    reveal_strlit("tell");
}

/// Words 150 to 175 of the list are in dictionary order.
proof fn lemma_sorted_from_150()
    ensures
        forall|k: int| 150 <= k < 175 ==> precedes(#[trigger] word_list()[k], word_list()[k + 1]),
{
    reveal_with_fuel(precedes, 6);
    reveal_strlit("tell");
    reveal_strlit("than");
    reveal_strlit("that");
    reveal_strlit("the");
    reveal_strlit("their");
    reveal_strlit("them");
    reveal_strlit("then");
    reveal_strlit("there");
    reveal_strlit("these");
    reveal_strlit("they");
    reveal_strlit("thing");
    reveal_strlit("think");
    reveal_strlit("this");
    reveal_strlit("three");
    reveal_strlit("through");
    reveal_strlit("time");
    reveal_strlit("to");
    reveal_strlit("too");
    reveal_strlit("try");
    reveal_strlit("turn");
    reveal_strlit("two");
    reveal_strlit("under");
    reveal_strlit("up");
    reveal_strlit("us");
    reveal_strlit("use");
    reveal_strlit("very");
}

/// Words 175 to 199 of the list are in dictionary order.
proof fn lemma_sorted_from_175()
    ensures
        forall|k: int| 175 <= k < 199 ==> precedes(#[trigger] word_list()[k], word_list()[k + 1]),
{
    reveal_with_fuel(precedes, 6);
    reveal_strlit("very");
    reveal_strlit("want");
    reveal_strlit("was");
    reveal_strlit("water");
    reveal_strlit("way");
    reveal_strlit("we");
    reveal_strlit("well");
    reveal_strlit("went");
    reveal_strlit("were");
    reveal_strlit("what");
    reveal_strlit("when");
    reveal_strlit("where");
    reveal_strlit("which");
    reveal_strlit("who");
    reveal_strlit("why");
    reveal_strlit("will");
    reveal_strlit("with");
    reveal_strlit("word");
    reveal_strlit("work");
    reveal_strlit("world");
    reveal_strlit("would");
    reveal_strlit("write");
    reveal_strlit("year");
    reveal_strlit("you");
    reveal_strlit("your");
}

/// The word list holds no word twice.
pub proof fn lemma_word_list_differ()
    ensures
        all_differ(word_list()),
        word_list().len() == 200,
{
    lemma_sorted_from_0();
    lemma_sorted_from_25();
    lemma_sorted_from_50();
    lemma_sorted_from_75();
    lemma_sorted_from_100();
    lemma_sorted_from_125();
    lemma_sorted_from_150();
    lemma_sorted_from_175();
    lemma_sorted_differ(word_list());
}

/// The words that tests draw from.
pub fn english_words() -> (v: Vec<String>)
    ensures
        texts(v@) == word_list(),
        all_differ(word_list()),
        word_list().len() == 200,
{
    let mut v: Vec<String> = Vec::new();
    let mut i: usize = 0;
    while i < 200
        invariant
            i <= 200,
            v.len() == i,
            forall|k: int| 0 <= k < i ==> #[trigger] v@[k]@ == ENGLISH_WORDS@[k]@,
        decreases 200 - i,
    {
        v.push(String::from_str(ENGLISH_WORDS[i]));
        i = i + 1;
    }
    proof {
        lemma_word_list_differ();
    }
    assert(texts(v@) =~= word_list());
    v
}

/// `words` never holds the same text twice in a row.
pub open spec fn no_adjacent_repeats(words: Seq<String>) -> bool {
    forall|k: int| 0 <= k < words.len() - 1 ==> #[trigger] words[k]@ != words[k + 1]@
}

/// Every text of `words` is the text of some word of `source`.
pub open spec fn drawn_from(words: Seq<String>, source: Seq<String>) -> bool {
    forall|k: int|
        0 <= k < words.len() ==> exists|i: int| 0 <= i < source.len() && #[trigger] words[k]@
            == source[i]@
}

/// `source` holds two different texts.
pub open spec fn has_two_texts(source: Seq<String>) -> bool {
    exists|i: int, j: int| 0 <= i < source.len() && 0 <= j < source.len() && source[i]@ != source[j]@
}

/// No two words of `words` have the same text.
pub open spec fn distinct_texts(words: Seq<String>) -> bool {
    forall|a: int, b: int| 0 <= a < b < words.len() ==> words[a]@ != words[b]@
}

/// Length of the first round of drawing: the whole source, or fewer when
/// fewer words are asked for.
pub open spec fn first_round(count: nat, source_len: nat) -> nat {
    if count < source_len {
        count
    } else {
        source_len
    }
}

/// No text occurs twice in `ws`.
pub open spec fn all_differ(ws: Seq<Seq<char>>) -> bool {
    forall|a: int, b: int| 0 <= a < b < ws.len() ==> ws[a] != ws[b]
}

/// The `r`-th round of `words` when they are cut at `cuts`.
pub open spec fn round(words: Seq<Seq<char>>, cuts: Seq<int>, r: int) -> Seq<Seq<char>> {
    words.subrange(cuts[r], cuts[r + 1])
}

/// The `r`-th round of `words` cut at `cuts` takes all `n` texts of the
/// source, or all but the one that the word before the round holds.
pub open spec fn whole_round(words: Seq<Seq<char>>, n: nat, cuts: Seq<int>, r: int) -> bool {
    ||| round(words, cuts, r).len() == n
    ||| round(words, cuts, r).len() == n - 1 && r > 0 && !round(words, cuts, r).contains(
        words[cuts[r] - 1],
    )
}

/// `cuts` splits `words` into rounds of drawing from `n` texts that all
/// differ: no round holds a text twice, and every round but the last is
/// whole, the source but for a first word that would have repeated the word
/// before it.
pub open spec fn split_in_rounds(words: Seq<Seq<char>>, n: nat, cuts: Seq<int>) -> bool {
    &&& cuts.len() >= 1
    &&& cuts[0] == 0
    &&& cuts.last() == words.len()
    &&& forall|r: int| 0 <= r < cuts.len() ==> 0 <= #[trigger] cuts[r] <= words.len()
    &&& forall|r: int, q: int| 0 <= r < q < cuts.len() ==> #[trigger] cuts[r] < #[trigger] cuts[q]
    &&& forall|r: int| 0 <= r < cuts.len() - 1 ==> all_differ(#[trigger] round(words, cuts, r))
    &&& forall|r: int| 0 <= r < cuts.len() - 2 ==> #[trigger] whole_round(words, n, cuts, r)
}

/// `words` are drawn in rounds from `n` texts that all differ.
pub open spec fn drawn_in_rounds(words: Seq<Seq<char>>, n: nat) -> bool {
    exists|cuts: Seq<int>| split_in_rounds(words, n, cuts)
}

/// A rearrangement of words whose texts differ has no two words with the same text.
proof fn lemma_shuffled_distinct(source: Seq<String>, batch: Seq<String>)
    requires
        distinct_texts(source),
        batch.to_multiset() == source.to_multiset(),
    ensures
        distinct_texts(batch),
{
    assert(source.no_duplicates());
    source.lemma_multiset_has_no_duplicates();
    batch.lemma_multiset_has_no_duplicates_conv();
    assert forall|a: int, b: int| 0 <= a < b < batch.len() implies batch[a]@ != batch[b]@ by {
        assert(batch.contains(batch[a]));
        assert(batch.contains(batch[b]));
        assert(batch.to_multiset().count(batch[a]) > 0);
        assert(batch.to_multiset().count(batch[b]) > 0);
        assert(source.contains(batch[a]));
        assert(source.contains(batch[b]));
        let i = source.index_of(batch[a]);
        let j = source.index_of(batch[b]);
        assert(batch[a] != batch[b]);
        assert(i != j);
    }
}

/// Appending one more round of drawing, taken in order from a rearrangement
/// `batch` of the source (from its second word on where `skip` is one),
/// keeps the words cut in rounds.
proof fn lemma_next_round(
    output: Seq<String>,
    prefix: Seq<String>,
    batch: Seq<String>,
    cuts: Seq<int>,
    n: nat,
    before: int,
    skip: int,
    count: int,
)
    requires
        distinct_texts(batch),
        batch.len() == n,
        split_in_rounds(texts(prefix), n, cuts),
        cuts.len() >= 2 ==> whole_round(texts(prefix), n, cuts, cuts.len() - 2),
        prefix.len() == before,
        before < output.len() <= count,
        forall|k: int| 0 <= k < before ==> output[k] == prefix[k],
        0 <= skip,
        output.len() - before + skip <= batch.len(),
        output.len() < count ==> output.len() - before == n || output.len() - before == n - 1
            && before > 0 && forall|k: int|
            before <= k < output.len() ==> (#[trigger] output[k])@ != output[before - 1]@,
        forall|k: int|
            before <= k < output.len() ==> #[trigger] output[k] == batch[k - before + skip],
    ensures
        split_in_rounds(texts(output), n, cuts.push(output.len() as int)),
        output.len() < count ==> whole_round(
            texts(output),
            n,
            cuts.push(output.len() as int),
            cuts.len() - 1,
        ),
{
    let t = texts(output);
    let tp = texts(prefix);
    let nc = cuts.push(output.len() as int);
    assert(nc[0] == cuts[0]);
    assert(nc.last() == t.len());
    assert forall|r: int| 0 <= r < nc.len() implies 0 <= #[trigger] nc[r] <= t.len() by {
        if r < cuts.len() {
            assert(0 <= cuts[r] <= tp.len());
        }
    }
    assert forall|r: int| 0 <= r < cuts.len() - 1 implies #[trigger] round(t, nc, r) == round(
        tp,
        cuts,
        r,
    ) by {
        assert(0 <= cuts[r] <= tp.len());
        assert(0 <= cuts[r + 1] <= tp.len());
        assert(nc[r] == cuts[r]);
        assert(nc[r + 1] == cuts[r + 1]);
        assert forall|k: int| cuts[r] <= k < cuts[r + 1] implies t[k] == tp[k] by {
            assert(output[k] == prefix[k]);
        }
        assert(round(t, nc, r) =~= round(tp, cuts, r));
    }
    let last = cuts.len() - 1;
    assert(nc[last] == before);
    assert(nc[last + 1] == output.len());
    assert(all_differ(round(t, nc, last))) by {
        let w = round(t, nc, last);
        assert forall|a: int, b: int| 0 <= a < b < w.len() implies w[a] != w[b] by {
            assert(w[a] == t[before + a]);
            assert(w[b] == t[before + b]);
            assert(output[before + a] == batch[a + skip]);
            assert(output[before + b] == batch[b + skip]);
        }
    }
    assert forall|r: int, q: int| 0 <= r < q < nc.len() implies #[trigger] nc[r] < #[trigger] nc[q] by {
        assert(0 <= cuts[r] <= tp.len());
        if q < cuts.len() {
            assert(cuts[r] < cuts[q]);
        }
    }
    assert forall|r: int| 0 <= r < nc.len() - 1 implies all_differ(#[trigger] round(t, nc, r)) by {
        if r < last {
            assert(round(t, nc, r) == round(tp, cuts, r));
        }
    }
    assert forall|r: int| 0 <= r < nc.len() - 2 implies #[trigger] whole_round(t, n, nc, r) by {
        assert(round(t, nc, r) == round(tp, cuts, r));
        assert(whole_round(tp, n, cuts, r));
        assert(0 <= cuts[r] <= tp.len());
        assert(0 <= cuts[r + 1] <= tp.len());
        if r > 0 {
            assert(cuts[0] < cuts[r]);
            assert(output[cuts[r] - 1] == prefix[cuts[r] - 1]);
        }
    }
    if output.len() < count && output.len() - before == n - 1 {
        let w = round(t, nc, last);
        assert(last > 0) by {
            if last == 0 {
                assert(cuts[0] == before);
            }
        }
        assert(!w.contains(t[before - 1])) by {
            if w.contains(t[before - 1]) {
                let k = w.index_of(t[before - 1]);
                assert(w[k] == t[before + k]);
                assert(output[before + k]@ != output[before - 1]@);
            }
        }
    }
}

/// `count` words drawn from `source`: the source is shuffled again and
/// again and its words are taken in turn, skipping a word equal to the one
/// just taken.
pub fn generate_from(source: &Vec<String>, count: usize) -> (out: Vec<String>)
    requires
        count <= 1 || has_two_texts(source@),
        count > 0 ==> source.len() > 0,
    ensures
        out.len() == count,
        no_adjacent_repeats(out@),
        drawn_from(out@, source@),
        distinct_texts(source@) ==> distinct_texts(
            out@.take(first_round(count as nat, source.len() as nat) as int),
        ),
        distinct_texts(source@) ==> drawn_in_rounds(texts(out@), source.len() as nat),
{
    let ghost m = first_round(count as nat, source.len() as nat) as int;
    let ghost n = source.len() as nat;
    let ghost mut cuts: Seq<int> = seq![0int];
    let mut rng = thread_rng();
    let mut output: Vec<String> = Vec::new();
    while output.len() < count
        invariant
            output.len() <= count,
            count <= 1 || has_two_texts(source@),
            count > 0 ==> source.len() > 0,
            no_adjacent_repeats(output@),
            drawn_from(output@, source@),
            m == first_round(count as nat, source.len() as nat),
            n == source.len(),
            distinct_texts(source@) ==> output.len() == 0 || output.len() >= m,
            distinct_texts(source@) && output.len() >= m ==> distinct_texts(output@.take(m)),
            distinct_texts(source@) ==> split_in_rounds(texts(output@), n, cuts),
            distinct_texts(source@) && output.len() < count && cuts.len() >= 2 ==> whole_round(
                texts(output@),
                n,
                cuts,
                cuts.len() - 2,
            ),
        decreases count - output.len(),
    {
        let mut batch: Vec<String> = Vec::new();
        let mut j: usize = 0;
        while j < source.len()
            invariant
                j <= source.len(),
                batch@ == source@.subrange(0, j as int),
            decreases source.len() - j,
        {
            batch.push(source[j].clone());
            assert(batch@ =~= source@.subrange(0, j + 1));
            j = j + 1;
        }
        assert(batch@ =~= source@);
        let ghost unshuffled = batch@;
        shuffle(&mut batch, &mut rng);
        proof {
            assert(batch@.len() == batch@.to_multiset().len());
            assert(unshuffled.len() == unshuffled.to_multiset().len());
            assert forall|x: String| batch@.contains(x) implies source@.contains(x) by {
                assert(batch@.to_multiset().count(x) > 0);
            }
            if distinct_texts(source@) {
                lemma_shuffled_distinct(source@, batch@);
            }
        }
        let ghost before = output.len();
        let ghost prefix = output@;
        let ghost mut skip: int = 0;
        let mut i: usize = 0;
        while i < batch.len()
            invariant_except_break
                output.len() < count,
            invariant
                i <= batch.len(),
                before < count,
                before <= output.len() <= count,
                batch.len() > 0,
                forall|x: String| batch@.contains(x) ==> source@.contains(x),
                output.len() == before ==> (i == 0 || before > 0) && forall|k: int|
                    0 <= k < i ==> (#[trigger] batch@[k])@ == output@[before - 1]@,
                no_adjacent_repeats(output@),
                drawn_from(output@, source@),
                batch.len() == source.len(),
                distinct_texts(source@) ==> distinct_texts(batch@),
                forall|k: int| 0 <= k < before ==> output@[k] == prefix[k],
                prefix.len() == before,
                i > 0 && output.len() > 0 ==> output@[output.len() - 1]@ == batch@[i - 1]@,
                distinct_texts(source@) && skip == 1 ==> batch@[0]@ == prefix[before - 1]@,
                distinct_texts(source@) ==> (skip == 0 || (skip == 1 && before > 0 && i >= 1))
                    && output.len() - before == i - skip && forall|k: int|
                    before <= k < output.len() ==> #[trigger] output@[k] == batch@[k - before
                        + skip],
            ensures
                forall|k: int| 0 <= k < before ==> output@[k] == prefix[k],
                output.len() <= count,
                output.len() > before || before > 0 && forall|k: int|
                    0 <= k < batch.len() ==> (#[trigger] batch@[k])@ == output@[before - 1]@,
                distinct_texts(source@) && skip == 1 ==> batch@[0]@ == prefix[before - 1]@,
                distinct_texts(source@) ==> (skip == 0 || (skip == 1 && before > 0))
                    && output.len() - before == i - skip && (output.len() < count ==> i
                    == batch.len()) && forall|k: int|
                    before <= k < output.len() ==> #[trigger] output@[k] == batch@[k - before
                        + skip],
            decreases batch.len() - i,
        {
            let n = output.len();
            if n > 0 && output[n - 1] == batch[i] {
                proof {
                    if distinct_texts(source@) && i > 0 {
                        assert(batch@[i - 1]@ == batch@[i as int]@);
                    }
                    if i == 0 {
                        skip = 1;
                    }
                }
                i = i + 1;
                continue;
            }
            let ghost w = batch@[i as int];
            assert(batch@.contains(w));
            let ghost si = source@.index_of(w);
            output.push(batch[i].clone());
            assert(output@[n as int]@ == source@[si]@);
            i = i + 1;
            if output.len() == count {
                break;
            }
        }
        proof {
            if output.len() == before {
                let (a, b) = choose|a: int, b: int|
                    0 <= a < source.len() && 0 <= b < source.len() && source@[a]@ != source@[b]@;
                assert(source@.contains(source@[a]));
                assert(batch@.to_multiset().count(source@[a]) > 0);
                assert(batch@.to_multiset().count(source@[b]) > 0);
                let ka = batch@.index_of(source@[a]);
                let kb = batch@.index_of(source@[b]);
                assert(batch@[ka]@ == output@[before - 1]@);
                assert(batch@[kb]@ == output@[before - 1]@);
            }
            if distinct_texts(source@) {
                if output.len() < count && skip == 1 {
                    assert forall|k: int| before <= k < output.len() implies (
                    #[trigger] output@[k])@ != output@[before - 1]@ by {
                        assert(output@[k] == batch@[k - before + 1]);
                        assert(output@[before - 1] == prefix[before - 1]);
                    }
                }
                lemma_next_round(output@, prefix, batch@, cuts, n, before as int, skip, count as int);
                if before == 0 {
                    assert(output.len() == m);
                    assert forall|a: int, b: int| 0 <= a < b < output@.take(m).len() implies output@.take(m)[a]@
                        != output@.take(m)[b]@ by {
                        assert(output@[a] == batch@[a]);
                        assert(output@[b] == batch@[b]);
                    }
                } else {
                    assert(output@.take(m) =~= prefix.take(m));
                }
                cuts = cuts.push(output.len() as int);
            }
        }
    }
    output
}

/// `count` random common English words, never the same word twice in a
/// row, drawn in rounds: each round uses each word of the list at most once,
/// and every round but the last uses all of them, but for a first word that
/// would repeat the word before it. The first round is as long as the list,
/// or as `count` where that is less.
pub fn generate(count: usize) -> (out: Vec<String>)
    ensures
        out.len() == count,
        no_adjacent_repeats(out@),
        forall|k: int| 0 <= k < count ==> word_list().contains(#[trigger] out@[k]@),
        distinct_texts(out@.take(first_round(count as nat, word_list().len()) as int)),
        drawn_in_rounds(texts(out@), word_list().len()),
{
    let list = english_words();
    proof {
        let p = texts(list@);
        assert(list@[0]@ == p[0]);
        assert(list@[1]@ == p[1]);
        assert(has_two_texts(list@));
        assert forall|a: int, b: int| 0 <= a < b < list@.len() implies list@[a]@ != list@[b]@ by {
            assert(p[a] == list@[a]@);
            assert(p[b] == list@[b]@);
        }
    }
    let out = generate_from(&list, count);
    proof {
        assert forall|k: int| 0 <= k < count implies word_list().contains(#[trigger] out@[k]@) by {
            let i = choose|i: int| 0 <= i < list.len() && out@[k]@ == list@[i]@;
            assert(texts(list@)[i] == list@[i]@);
        }
    }
    out
}

} // verus!
