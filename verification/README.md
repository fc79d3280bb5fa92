# prelearning

The verified core of a Japanese language-learning toolkit, written in Verus.

- `src/` is the library. Its functions are verified against their
  contracts, except the trusted wrappers marked `#[verifier::external_body]`:
  small functions that call std or an outside crate (string and path
  conversions, Unicode normalisation, the trie, `heapless`, SHA-256, kebab
  case, `Debug` for strings). Verus believes their contracts, which state
  what those calls return.
  - `lexorank`: base-36 ranks and the rank space that hands them out.
  - `language_pack`: text transforms and processors, suffix deinflection,
    the dictionary lexicon, matching transcribed words and the steps that
    carry timestamps along an alignment.
  - `language_pack_jp`: Japanese character tables and processors, reading
    the UniDic tagger's output, grouping inflected morphemes, the inflection
    rules, resolving words against the dictionaries, and splitting a line
    into morphemes or study words.
  - `epub`: the container, package, NCX and navigation documents, and the
    text and chapters of a publication read from its parsed documents.
  - `dictionary`: Yomitan dictionaries, their structured content and term
    metadata.
  - `forvo`: the path and URL of pronunciation requests.
  - `sha256`, `subtitle`, `plugin`: digests, subtitle cleaning and the media
    player plugin's decisions.
- `app/` is ordinary Rust around the library: reading archives and XML,
  parsing HTML, HTTP requests, the media player, and floating-point
  timestamps.
- `tests/` runs the library on concrete values.
