//! Dictionaries of words as tries (`trie_rs`), keyed by the UTF-8 bytes of
//! each word, each word with an optional frequency rank.
use vstd::prelude::*;
use vstd::utf8::encode_utf8;

verus! {

#[verifier::external_type_specification]
#[verifier::external_body]
#[verifier::reject_recursive_types(Label)]
#[verifier::reject_recursive_types(Value)]
pub struct ExTrie<Label, Value>(trie_rs::map::Trie<Label, Value>);

/// A dictionary: words by their UTF-8 bytes, each with an optional rank.
pub type Lexicon = trie_rs::map::Trie<u8, Option<usize>>;

/// The keys of a trie and the value stored with each.
pub uninterp spec fn trie_contents(t: trie_rs::map::Trie<u8, Option<usize>>) -> Map<Seq<u8>, Option<usize>>;

/// The value stored with the word `text`; an empty word is never found.
pub open spec fn lex_get(t: Lexicon, text: Seq<char>) -> Option<Option<usize>> {
    if text.len() > 0 && trie_contents(t).contains_key(encode_utf8(text)) {
        Some(trie_contents(t)[encode_utf8(text)])
    } else {
        None
    }
}

/// Whether some word of the trie is longer than `text` and starts with it.
pub open spec fn lex_is_prefix(t: Lexicon, text: Seq<char>) -> bool {
    exists|k: Seq<u8>| #[trigger] trie_contents(t).contains_key(k) && k.len() > encode_utf8(text).len()
        && k.subrange(0, encode_utf8(text).len() as int) == encode_utf8(text)
}

/// `Trie::exact_match`: the value stored with the bytes of `text`, found
/// by walking the trie from its root; an empty query finds nothing.
#[verifier::external_body]
pub(crate) fn exact_match<'a>(t: &'a Lexicon, text: &str) -> (r: Option<&'a Option<usize>>)
    ensures
        r matches Some(v) ==> text@.len() > 0 && trie_contents(*t).contains_key(encode_utf8(text@))
            && trie_contents(*t)[encode_utf8(text@)] == *v,
        r is None ==> !(text@.len() > 0 && trie_contents(*t).contains_key(encode_utf8(text@))),
{
    t.exact_match(text)
}

/// `Trie::is_prefix`: whether the node that the bytes of `text` lead to
/// has children, that is whether a longer word starts with them.
#[verifier::external_body]
pub(crate) fn is_prefix(t: &Lexicon, text: &str) -> (r: bool)
    ensures
        r == (exists|k: Seq<u8>| #[trigger] trie_contents(*t).contains_key(k) && k.len() > encode_utf8(text@).len()
            && k.subrange(0, encode_utf8(text@).len() as int) == encode_utf8(text@)),
{
    t.is_prefix(text)
}

} // verus!
