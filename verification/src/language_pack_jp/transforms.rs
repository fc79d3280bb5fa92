//! The Japanese inflection rules, grouped by the inflection they undo.
use vstd::prelude::*;
use crate::language_pack::transform::{lemma_utf8_size_bound, rule_view_ok, rules_view, suffix_inflection, suffix_inflection_with_replacements, Inflection, RuleView, Transform};
use super::transform::{subconditions_added, Conditions};

verus! {

/// The row of the kana chart that a hiragana of the godan conjugation
/// belongs to: 0 for あいうえお (and わ), then か, が, さ, た, な, ば, ま and
/// ら; -1 for any other character.
pub open spec fn godan_row(c: char) -> int {
    if c == 'あ' || c == 'い' || c == 'う' || c == 'え' || c == 'お' || c == 'わ' {
        0
    } else if c == 'か' || c == 'き' || c == 'く' || c == 'け' || c == 'こ' {
        1
    } else if c == 'が' || c == 'ぎ' || c == 'ぐ' || c == 'げ' || c == 'ご' {
        2
    } else if c == 'さ' || c == 'し' || c == 'す' || c == 'せ' || c == 'そ' {
        3
    } else if c == 'た' || c == 'ち' || c == 'つ' || c == 'て' || c == 'と' {
        4
    } else if c == 'な' || c == 'に' || c == 'ぬ' || c == 'ね' || c == 'の' {
        5
    } else if c == 'ば' || c == 'び' || c == 'ぶ' || c == 'べ' || c == 'ぼ' {
        6
    } else if c == 'ま' || c == 'み' || c == 'む' || c == 'め' || c == 'も' {
        7
    } else if c == 'ら' || c == 'り' || c == 'る' || c == 'れ' || c == 'ろ' {
        8
    } else {
        -1
    }
}

/// The dictionary-form (う-column) kana of each godan row.
pub open spec fn row_u_kana(row: int) -> char {
    if row == 0 { 'う' } else if row == 1 { 'く' } else if row == 2 { 'ぐ' } else if row == 3 { 'す' }
    else if row == 4 { 'つ' } else if row == 5 { 'ぬ' } else if row == 6 { 'ぶ' } else if row == 7 { 'む' }
    else { 'る' }
}

/// Whether `c` is the hypothetical-form (え-column) kana of a godan row.
pub open spec fn e_column(c: char) -> bool {
    c == 'え' || c == 'け' || c == 'げ' || c == 'せ' || c == 'て' || c == 'ね' || c == 'べ' || c == 'め' || c == 'れ'
}

/// Whether `c` is the dictionary-form kana of a godan row other than る
/// (whose ending ichidan verbs share).
pub open spec fn godan_u_kana(c: char) -> bool {
    c == 'う' || c == 'く' || c == 'ぐ' || c == 'す' || c == 'つ' || c == 'ぬ' || c == 'ぶ' || c == 'む'
}

/// Whether a rule undoing an え-column kana followed by ば (the
/// hypothetical form of a godan row) gives back the う-column kana of that
/// same row, when it gives back a single kana.
pub open spec fn undoes_hypothetical_row(r: RuleView) -> bool {
    r.0.len() == 2 && r.0[1] == 'ば' && e_column(r.0[0]) && r.1.len() == 1
        ==> r.1[0] == row_u_kana(godan_row(r.0[0]))
}

/// What every rule of the table keeps of the kana chart, leaving aside る
/// (shared with ichidan verbs) and the euphonic い and う: a rule that
/// undoes an え-column kana followed by ば into a godan dictionary-form
/// kana gives back the one of the same row; and a rule that gives back a
/// godan dictionary-form kana, from an ending that starts with a kana of
/// the chart, stays in that kana's row.
pub open spec fn keeps_godan_rows(r: RuleView) -> bool {
    &&& r.0.len() == 2 && r.0[1] == 'ば' && e_column(r.0[0]) && r.1.len() == 1 && godan_u_kana(r.1[0])
        ==> r.1[0] == row_u_kana(godan_row(r.0[0]))
    &&& r.1.len() == 1 && godan_u_kana(r.1[0]) && r.0.len() >= 1 && r.0[0] != 'い' && r.0[0] != 'う'
        && godan_row(r.0[0]) >= 0 ==> godan_row(r.0[0]) == godan_row(r.1[0])
}

/// The rules of `-ば`: ending, replacement, conditions in and out,
/// and endings rewritten first.
#[verifier::opaque]
pub open spec fn rules_0() -> Seq<RuleView> {
    seq![
        ("ければ"@, "い"@, subconditions_added(Conditions::ba), subconditions_added(Conditions::adj_i), Seq::<(Seq<char>, Seq<char>)>::empty()),
        ("えば"@, "う"@, subconditions_added(Conditions::ba), subconditions_added(Conditions::v5), Seq::<(Seq<char>, Seq<char>)>::empty()),
        ("けば"@, "く"@, subconditions_added(Conditions::ba), subconditions_added(Conditions::v5), Seq::<(Seq<char>, Seq<char>)>::empty()),
        ("げば"@, "ぐ"@, subconditions_added(Conditions::ba), subconditions_added(Conditions::v5), Seq::<(Seq<char>, Seq<char>)>::empty()),
        ("せば"@, "す"@, subconditions_added(Conditions::ba), subconditions_added(Conditions::v5), Seq::<(Seq<char>, Seq<char>)>::empty()),
        ("てば"@, "つ"@, subconditions_added(Conditions::ba), subconditions_added(Conditions::v5), Seq::<(Seq<char>, Seq<char>)>::empty()),
        ("ねば"@, "ぬ"@, subconditions_added(Conditions::ba), subconditions_added(Conditions::v5), Seq::<(Seq<char>, Seq<char>)>::empty()),
        ("べば"@, "ぶ"@, subconditions_added(Conditions::ba), subconditions_added(Conditions::v5), Seq::<(Seq<char>, Seq<char>)>::empty()),
        ("めば"@, "む"@, subconditions_added(Conditions::ba), subconditions_added(Conditions::v5), Seq::<(Seq<char>, Seq<char>)>::empty()),
        ("れば"@, "る"@, subconditions_added(Conditions::ba), subconditions_added(Conditions::v1 | Conditions::v5 | Conditions::vk | Conditions::vs | Conditions::vz), Seq::<(Seq<char>, Seq<char>)>::empty()),
        ("れば"@, ""@, subconditions_added(Conditions::ba), subconditions_added(Conditions::masu), Seq::<(Seq<char>, Seq<char>)>::empty()),
    ]
}

#[verifier::rlimit(60)]
proof fn lemma_rules_0_ok()
    ensures
        forall|i: int| 0 <= i < rules_0().len() ==> #[trigger] rule_view_ok(rules_0()[i]),
        forall|i: int| 0 <= i < rules_0().len() ==> #[trigger] keeps_godan_rows(rules_0()[i]),
        forall|i: int| 0 <= i < rules_0().len() ==> #[trigger] undoes_hypothetical_row(rules_0()[i]),
{
    reveal(rules_0);
    reveal_strlit("ければ");
    lemma_utf8_size_bound("ければ"@);
    reveal_strlit("い");
    lemma_utf8_size_bound("い"@);
    reveal_strlit("えば");
    lemma_utf8_size_bound("えば"@);
    reveal_strlit("う");
    lemma_utf8_size_bound("う"@);
    reveal_strlit("けば");
    lemma_utf8_size_bound("けば"@);
    reveal_strlit("く");
    lemma_utf8_size_bound("く"@);
    reveal_strlit("げば");
    lemma_utf8_size_bound("げば"@);
    reveal_strlit("ぐ");
    lemma_utf8_size_bound("ぐ"@);
    reveal_strlit("せば");
    lemma_utf8_size_bound("せば"@);
    reveal_strlit("す");
    lemma_utf8_size_bound("す"@);
    reveal_strlit("てば");
    lemma_utf8_size_bound("てば"@);
    reveal_strlit("つ");
    lemma_utf8_size_bound("つ"@);
    reveal_strlit("ねば");
    lemma_utf8_size_bound("ねば"@);
    reveal_strlit("ぬ");
    lemma_utf8_size_bound("ぬ"@);
    reveal_strlit("べば");
    lemma_utf8_size_bound("べば"@);
    reveal_strlit("ぶ");
    lemma_utf8_size_bound("ぶ"@);
    reveal_strlit("めば");
    lemma_utf8_size_bound("めば"@);
    reveal_strlit("む");
    lemma_utf8_size_bound("む"@);
    reveal_strlit("れば");
    lemma_utf8_size_bound("れば"@);
    reveal_strlit("る");
    lemma_utf8_size_bound("る"@);
    reveal_strlit("");
    lemma_utf8_size_bound(""@);
}

fn transform_0() -> (r: Transform)
    ensures
        rules_view(r.rules@) == rules_0(),
{
    let mut rules: Vec<Inflection> = Vec::new();
    rules.push(suffix_inflection("ければ", "い", Conditions(Conditions::ba).with_subconditions(), Conditions(Conditions::adj_i).with_subconditions()));
    rules.push(suffix_inflection("えば", "う", Conditions(Conditions::ba).with_subconditions(), Conditions(Conditions::v5).with_subconditions()));
    rules.push(suffix_inflection("けば", "く", Conditions(Conditions::ba).with_subconditions(), Conditions(Conditions::v5).with_subconditions()));
    rules.push(suffix_inflection("げば", "ぐ", Conditions(Conditions::ba).with_subconditions(), Conditions(Conditions::v5).with_subconditions()));
    rules.push(suffix_inflection("せば", "す", Conditions(Conditions::ba).with_subconditions(), Conditions(Conditions::v5).with_subconditions()));
    rules.push(suffix_inflection("てば", "つ", Conditions(Conditions::ba).with_subconditions(), Conditions(Conditions::v5).with_subconditions()));
    rules.push(suffix_inflection("ねば", "ぬ", Conditions(Conditions::ba).with_subconditions(), Conditions(Conditions::v5).with_subconditions()));
    rules.push(suffix_inflection("べば", "ぶ", Conditions(Conditions::ba).with_subconditions(), Conditions(Conditions::v5).with_subconditions()));
    rules.push(suffix_inflection("めば", "む", Conditions(Conditions::ba).with_subconditions(), Conditions(Conditions::v5).with_subconditions()));
    rules.push(suffix_inflection("れば", "る", Conditions(Conditions::ba).with_subconditions(), Conditions(Conditions::v1 | Conditions::v5 | Conditions::vk | Conditions::vs | Conditions::vz).with_subconditions()));
    rules.push(suffix_inflection("れば", "", Conditions(Conditions::ba).with_subconditions(), Conditions(Conditions::masu).with_subconditions()));
    proof {
        reveal(rules_0);
        assert(rules_view(rules@) =~~= rules_0());
    }
    Transform { name: "-ば", description: "1. Conditional form; shows that the previous stated condition's establishment is the condition for the latter stated condition to occur.\n2. Shows a trigger for a latter stated perception or judgment.\n\nUsage: Attach ば to the hypothetical form (仮定形) of verbs and i-adjectives.\n", rules }
}

/// The rules of `-ゃ`: ending, replacement, conditions in and out,
/// and endings rewritten first.
#[verifier::opaque]
pub open spec fn rules_1() -> Seq<RuleView> {
    seq![
        ("けりゃ"@, "ければ"@, subconditions_added(Conditions::ya), subconditions_added(Conditions::ba), Seq::<(Seq<char>, Seq<char>)>::empty()),
        ("きゃ"@, "ければ"@, subconditions_added(Conditions::ya), subconditions_added(Conditions::ba), Seq::<(Seq<char>, Seq<char>)>::empty()),
        ("や"@, "えば"@, subconditions_added(Conditions::ya), subconditions_added(Conditions::ba), Seq::<(Seq<char>, Seq<char>)>::empty()),
        ("きゃ"@, "けば"@, subconditions_added(Conditions::ya), subconditions_added(Conditions::ba), Seq::<(Seq<char>, Seq<char>)>::empty()),
        ("ぎゃ"@, "げば"@, subconditions_added(Conditions::ya), subconditions_added(Conditions::ba), Seq::<(Seq<char>, Seq<char>)>::empty()),
        ("しゃ"@, "せば"@, subconditions_added(Conditions::ya), subconditions_added(Conditions::ba), Seq::<(Seq<char>, Seq<char>)>::empty()),
        ("ちゃ"@, "てば"@, subconditions_added(Conditions::ya), subconditions_added(Conditions::ba), Seq::<(Seq<char>, Seq<char>)>::empty()),
        ("にゃ"@, "ねば"@, subconditions_added(Conditions::ya), subconditions_added(Conditions::ba), Seq::<(Seq<char>, Seq<char>)>::empty()),
        ("びゃ"@, "べば"@, subconditions_added(Conditions::ya), subconditions_added(Conditions::ba), Seq::<(Seq<char>, Seq<char>)>::empty()),
        ("みゃ"@, "めば"@, subconditions_added(Conditions::ya), subconditions_added(Conditions::ba), Seq::<(Seq<char>, Seq<char>)>::empty()),
        ("りゃ"@, "れば"@, subconditions_added(Conditions::ya), subconditions_added(Conditions::ba), Seq::<(Seq<char>, Seq<char>)>::empty()),
    ]
}

#[verifier::rlimit(60)]
proof fn lemma_rules_1_ok()
    ensures
        forall|i: int| 0 <= i < rules_1().len() ==> #[trigger] rule_view_ok(rules_1()[i]),
        forall|i: int| 0 <= i < rules_1().len() ==> #[trigger] keeps_godan_rows(rules_1()[i]),
{
    reveal(rules_1);
    reveal_strlit("けりゃ");
    lemma_utf8_size_bound("けりゃ"@);
    reveal_strlit("ければ");
    lemma_utf8_size_bound("ければ"@);
    reveal_strlit("きゃ");
    lemma_utf8_size_bound("きゃ"@);
    reveal_strlit("や");
    lemma_utf8_size_bound("や"@);
    reveal_strlit("えば");
    lemma_utf8_size_bound("えば"@);
    reveal_strlit("けば");
    lemma_utf8_size_bound("けば"@);
    reveal_strlit("ぎゃ");
    lemma_utf8_size_bound("ぎゃ"@);
    reveal_strlit("げば");
    lemma_utf8_size_bound("げば"@);
    reveal_strlit("しゃ");
    lemma_utf8_size_bound("しゃ"@);
    reveal_strlit("せば");
    lemma_utf8_size_bound("せば"@);
    reveal_strlit("ちゃ");
    lemma_utf8_size_bound("ちゃ"@);
    reveal_strlit("てば");
    lemma_utf8_size_bound("てば"@);
    reveal_strlit("にゃ");
    lemma_utf8_size_bound("にゃ"@);
    reveal_strlit("ねば");
    lemma_utf8_size_bound("ねば"@);
    reveal_strlit("びゃ");
    lemma_utf8_size_bound("びゃ"@);
    reveal_strlit("べば");
    lemma_utf8_size_bound("べば"@);
    reveal_strlit("みゃ");
    lemma_utf8_size_bound("みゃ"@);
    reveal_strlit("めば");
    lemma_utf8_size_bound("めば"@);
    reveal_strlit("りゃ");
    lemma_utf8_size_bound("りゃ"@);
    reveal_strlit("れば");
    lemma_utf8_size_bound("れば"@);
}

fn transform_1() -> (r: Transform)
    ensures
        rules_view(r.rules@) == rules_1(),
{
    let mut rules: Vec<Inflection> = Vec::new();
    rules.push(suffix_inflection("けりゃ", "ければ", Conditions(Conditions::ya).with_subconditions(), Conditions(Conditions::ba).with_subconditions()));
    rules.push(suffix_inflection("きゃ", "ければ", Conditions(Conditions::ya).with_subconditions(), Conditions(Conditions::ba).with_subconditions()));
    rules.push(suffix_inflection("や", "えば", Conditions(Conditions::ya).with_subconditions(), Conditions(Conditions::ba).with_subconditions()));
    rules.push(suffix_inflection("きゃ", "けば", Conditions(Conditions::ya).with_subconditions(), Conditions(Conditions::ba).with_subconditions()));
    rules.push(suffix_inflection("ぎゃ", "げば", Conditions(Conditions::ya).with_subconditions(), Conditions(Conditions::ba).with_subconditions()));
    rules.push(suffix_inflection("しゃ", "せば", Conditions(Conditions::ya).with_subconditions(), Conditions(Conditions::ba).with_subconditions()));
    rules.push(suffix_inflection("ちゃ", "てば", Conditions(Conditions::ya).with_subconditions(), Conditions(Conditions::ba).with_subconditions()));
    rules.push(suffix_inflection("にゃ", "ねば", Conditions(Conditions::ya).with_subconditions(), Conditions(Conditions::ba).with_subconditions()));
    rules.push(suffix_inflection("びゃ", "べば", Conditions(Conditions::ya).with_subconditions(), Conditions(Conditions::ba).with_subconditions()));
    rules.push(suffix_inflection("みゃ", "めば", Conditions(Conditions::ya).with_subconditions(), Conditions(Conditions::ba).with_subconditions()));
    rules.push(suffix_inflection("りゃ", "れば", Conditions(Conditions::ya).with_subconditions(), Conditions(Conditions::ba).with_subconditions()));
    proof {
        reveal(rules_1);
        assert(rules_view(rules@) =~~= rules_1());
    }
    Transform { name: "-ゃ", description: "Contraction of -ば.\n", rules }
}

/// The rules of `-ちゃ`: ending, replacement, conditions in and out,
/// and endings rewritten first.
#[verifier::opaque]
pub open spec fn rules_2() -> Seq<RuleView> {
    seq![
        ("ちゃ"@, "る"@, subconditions_added(Conditions::v5), subconditions_added(Conditions::v1), Seq::<(Seq<char>, Seq<char>)>::empty()),
        ("いじゃ"@, "ぐ"@, subconditions_added(Conditions::v5), subconditions_added(Conditions::v5), Seq::<(Seq<char>, Seq<char>)>::empty()),
        ("いちゃ"@, "く"@, subconditions_added(Conditions::v5), subconditions_added(Conditions::v5), Seq::<(Seq<char>, Seq<char>)>::empty()),
        ("しちゃ"@, "す"@, subconditions_added(Conditions::v5), subconditions_added(Conditions::v5), Seq::<(Seq<char>, Seq<char>)>::empty()),
        ("っちゃ"@, "う"@, subconditions_added(Conditions::v5), subconditions_added(Conditions::v5), Seq::<(Seq<char>, Seq<char>)>::empty()),
        ("っちゃ"@, "く"@, subconditions_added(Conditions::v5), subconditions_added(Conditions::v5), Seq::<(Seq<char>, Seq<char>)>::empty()),
        ("っちゃ"@, "つ"@, subconditions_added(Conditions::v5), subconditions_added(Conditions::v5), Seq::<(Seq<char>, Seq<char>)>::empty()),
        ("っちゃ"@, "る"@, subconditions_added(Conditions::v5), subconditions_added(Conditions::v5), Seq::<(Seq<char>, Seq<char>)>::empty()),
        ("んじゃ"@, "ぬ"@, subconditions_added(Conditions::v5), subconditions_added(Conditions::v5), Seq::<(Seq<char>, Seq<char>)>::empty()),
        ("んじゃ"@, "ぶ"@, subconditions_added(Conditions::v5), subconditions_added(Conditions::v5), Seq::<(Seq<char>, Seq<char>)>::empty()),
        ("んじゃ"@, "む"@, subconditions_added(Conditions::v5), subconditions_added(Conditions::v5), Seq::<(Seq<char>, Seq<char>)>::empty()),
        ("じちゃ"@, "ずる"@, subconditions_added(Conditions::v5), subconditions_added(Conditions::vz), Seq::<(Seq<char>, Seq<char>)>::empty()),
        ("しちゃ"@, "する"@, subconditions_added(Conditions::v5), subconditions_added(Conditions::vs), Seq::<(Seq<char>, Seq<char>)>::empty()),
        ("為ちゃ"@, "為る"@, subconditions_added(Conditions::v5), subconditions_added(Conditions::vs), Seq::<(Seq<char>, Seq<char>)>::empty()),
        ("きちゃ"@, "くる"@, subconditions_added(Conditions::v5), subconditions_added(Conditions::vk), Seq::<(Seq<char>, Seq<char>)>::empty()),
        ("来ちゃ"@, "来る"@, subconditions_added(Conditions::v5), subconditions_added(Conditions::vk), Seq::<(Seq<char>, Seq<char>)>::empty()),
        ("來ちゃ"@, "來る"@, subconditions_added(Conditions::v5), subconditions_added(Conditions::vk), Seq::<(Seq<char>, Seq<char>)>::empty()),
    ]
}

#[verifier::rlimit(60)]
proof fn lemma_rules_2_ok()
    ensures
        forall|i: int| 0 <= i < rules_2().len() ==> #[trigger] rule_view_ok(rules_2()[i]),
        forall|i: int| 0 <= i < rules_2().len() ==> #[trigger] keeps_godan_rows(rules_2()[i]),
{
    reveal(rules_2);
    reveal_strlit("ちゃ");
    lemma_utf8_size_bound("ちゃ"@);
    reveal_strlit("る");
    lemma_utf8_size_bound("る"@);
    reveal_strlit("いじゃ");
    lemma_utf8_size_bound("いじゃ"@);
    reveal_strlit("ぐ");
    lemma_utf8_size_bound("ぐ"@);
    reveal_strlit("いちゃ");
    lemma_utf8_size_bound("いちゃ"@);
    reveal_strlit("く");
    lemma_utf8_size_bound("く"@);
    reveal_strlit("しちゃ");
    lemma_utf8_size_bound("しちゃ"@);
    reveal_strlit("す");
    lemma_utf8_size_bound("す"@);
    reveal_strlit("っちゃ");
    lemma_utf8_size_bound("っちゃ"@);
    reveal_strlit("う");
    lemma_utf8_size_bound("う"@);
    reveal_strlit("つ");
    lemma_utf8_size_bound("つ"@);
    reveal_strlit("んじゃ");
    lemma_utf8_size_bound("んじゃ"@);
    reveal_strlit("ぬ");
    lemma_utf8_size_bound("ぬ"@);
    reveal_strlit("ぶ");
    lemma_utf8_size_bound("ぶ"@);
    reveal_strlit("む");
    lemma_utf8_size_bound("む"@);
    reveal_strlit("じちゃ");
    lemma_utf8_size_bound("じちゃ"@);
    reveal_strlit("ずる");
    lemma_utf8_size_bound("ずる"@);
    reveal_strlit("する");
    lemma_utf8_size_bound("する"@);
    reveal_strlit("為ちゃ");
    lemma_utf8_size_bound("為ちゃ"@);
    reveal_strlit("為る");
    lemma_utf8_size_bound("為る"@);
    reveal_strlit("きちゃ");
    lemma_utf8_size_bound("きちゃ"@);
    reveal_strlit("くる");
    lemma_utf8_size_bound("くる"@);
    reveal_strlit("来ちゃ");
    lemma_utf8_size_bound("来ちゃ"@);
    reveal_strlit("来る");
    lemma_utf8_size_bound("来る"@);
    reveal_strlit("來ちゃ");
    lemma_utf8_size_bound("來ちゃ"@);
    reveal_strlit("來る");
    lemma_utf8_size_bound("來る"@);
}

fn transform_2() -> (r: Transform)
    ensures
        rules_view(r.rules@) == rules_2(),
{
    let mut rules: Vec<Inflection> = Vec::new();
    rules.push(suffix_inflection("ちゃ", "る", Conditions(Conditions::v5).with_subconditions(), Conditions(Conditions::v1).with_subconditions()));
    rules.push(suffix_inflection("いじゃ", "ぐ", Conditions(Conditions::v5).with_subconditions(), Conditions(Conditions::v5).with_subconditions()));
    rules.push(suffix_inflection("いちゃ", "く", Conditions(Conditions::v5).with_subconditions(), Conditions(Conditions::v5).with_subconditions()));
    rules.push(suffix_inflection("しちゃ", "す", Conditions(Conditions::v5).with_subconditions(), Conditions(Conditions::v5).with_subconditions()));
    rules.push(suffix_inflection("っちゃ", "う", Conditions(Conditions::v5).with_subconditions(), Conditions(Conditions::v5).with_subconditions()));
    rules.push(suffix_inflection("っちゃ", "く", Conditions(Conditions::v5).with_subconditions(), Conditions(Conditions::v5).with_subconditions()));
    rules.push(suffix_inflection("っちゃ", "つ", Conditions(Conditions::v5).with_subconditions(), Conditions(Conditions::v5).with_subconditions()));
    rules.push(suffix_inflection("っちゃ", "る", Conditions(Conditions::v5).with_subconditions(), Conditions(Conditions::v5).with_subconditions()));
    rules.push(suffix_inflection("んじゃ", "ぬ", Conditions(Conditions::v5).with_subconditions(), Conditions(Conditions::v5).with_subconditions()));
    rules.push(suffix_inflection("んじゃ", "ぶ", Conditions(Conditions::v5).with_subconditions(), Conditions(Conditions::v5).with_subconditions()));
    rules.push(suffix_inflection("んじゃ", "む", Conditions(Conditions::v5).with_subconditions(), Conditions(Conditions::v5).with_subconditions()));
    rules.push(suffix_inflection("じちゃ", "ずる", Conditions(Conditions::v5).with_subconditions(), Conditions(Conditions::vz).with_subconditions()));
    rules.push(suffix_inflection("しちゃ", "する", Conditions(Conditions::v5).with_subconditions(), Conditions(Conditions::vs).with_subconditions()));
    rules.push(suffix_inflection("為ちゃ", "為る", Conditions(Conditions::v5).with_subconditions(), Conditions(Conditions::vs).with_subconditions()));
    rules.push(suffix_inflection("きちゃ", "くる", Conditions(Conditions::v5).with_subconditions(), Conditions(Conditions::vk).with_subconditions()));
    rules.push(suffix_inflection("来ちゃ", "来る", Conditions(Conditions::v5).with_subconditions(), Conditions(Conditions::vk).with_subconditions()));
    rules.push(suffix_inflection("來ちゃ", "來る", Conditions(Conditions::v5).with_subconditions(), Conditions(Conditions::vk).with_subconditions()));
    proof {
        reveal(rules_2);
        assert(rules_view(rules@) =~~= rules_2());
    }
    Transform { name: "-ちゃ", description: "Contraction of ～ては.\n\n1. Explains how something always happens under the condition that it marks.\n2. Expresses the repetition (of a series of) actions.\n3. Indicates a hypothetical situation in which the speaker gives a (negative) evaluation about the other party's intentions.\n4. Used in \\\"Must Not\\\" patterns like ～てはいけない.\n\nUsage: Attach は after the て-form of verbs, contract ては into ちゃ.\n", rules }
}

/// The rules of `-ちゃう`: ending, replacement, conditions in and out,
/// and endings rewritten first.
#[verifier::opaque]
pub open spec fn rules_3() -> Seq<RuleView> {
    seq![
        ("ちゃう"@, "る"@, subconditions_added(Conditions::v5), subconditions_added(Conditions::v1), Seq::<(Seq<char>, Seq<char>)>::empty()),
        ("いじゃう"@, "ぐ"@, subconditions_added(Conditions::v5), subconditions_added(Conditions::v5), Seq::<(Seq<char>, Seq<char>)>::empty()),
        ("いちゃう"@, "く"@, subconditions_added(Conditions::v5), subconditions_added(Conditions::v5), Seq::<(Seq<char>, Seq<char>)>::empty()),
        ("しちゃう"@, "す"@, subconditions_added(Conditions::v5), subconditions_added(Conditions::v5), Seq::<(Seq<char>, Seq<char>)>::empty()),
        ("っちゃう"@, "う"@, subconditions_added(Conditions::v5), subconditions_added(Conditions::v5), Seq::<(Seq<char>, Seq<char>)>::empty()),
        ("っちゃう"@, "く"@, subconditions_added(Conditions::v5), subconditions_added(Conditions::v5), Seq::<(Seq<char>, Seq<char>)>::empty()),
        ("っちゃう"@, "つ"@, subconditions_added(Conditions::v5), subconditions_added(Conditions::v5), Seq::<(Seq<char>, Seq<char>)>::empty()),
        ("っちゃう"@, "る"@, subconditions_added(Conditions::v5), subconditions_added(Conditions::v5), Seq::<(Seq<char>, Seq<char>)>::empty()),
        ("んじゃう"@, "ぬ"@, subconditions_added(Conditions::v5), subconditions_added(Conditions::v5), Seq::<(Seq<char>, Seq<char>)>::empty()),
        ("んじゃう"@, "ぶ"@, subconditions_added(Conditions::v5), subconditions_added(Conditions::v5), Seq::<(Seq<char>, Seq<char>)>::empty()),
        ("んじゃう"@, "む"@, subconditions_added(Conditions::v5), subconditions_added(Conditions::v5), Seq::<(Seq<char>, Seq<char>)>::empty()),
        ("じちゃう"@, "ずる"@, subconditions_added(Conditions::v5), subconditions_added(Conditions::vz), Seq::<(Seq<char>, Seq<char>)>::empty()),
        ("しちゃう"@, "する"@, subconditions_added(Conditions::v5), subconditions_added(Conditions::vs), Seq::<(Seq<char>, Seq<char>)>::empty()),
        ("為ちゃう"@, "為る"@, subconditions_added(Conditions::v5), subconditions_added(Conditions::vs), Seq::<(Seq<char>, Seq<char>)>::empty()),
        ("きちゃう"@, "くる"@, subconditions_added(Conditions::v5), subconditions_added(Conditions::vk), Seq::<(Seq<char>, Seq<char>)>::empty()),
        ("来ちゃう"@, "来る"@, subconditions_added(Conditions::v5), subconditions_added(Conditions::vk), Seq::<(Seq<char>, Seq<char>)>::empty()),
        ("來ちゃう"@, "來る"@, subconditions_added(Conditions::v5), subconditions_added(Conditions::vk), Seq::<(Seq<char>, Seq<char>)>::empty()),
    ]
}

#[verifier::rlimit(60)]
proof fn lemma_rules_3_ok()
    ensures
        forall|i: int| 0 <= i < rules_3().len() ==> #[trigger] rule_view_ok(rules_3()[i]),
        forall|i: int| 0 <= i < rules_3().len() ==> #[trigger] keeps_godan_rows(rules_3()[i]),
{
    reveal(rules_3);
    reveal_strlit("ちゃう");
    lemma_utf8_size_bound("ちゃう"@);
    reveal_strlit("る");
    lemma_utf8_size_bound("る"@);
    reveal_strlit("いじゃう");
    lemma_utf8_size_bound("いじゃう"@);
    reveal_strlit("ぐ");
    lemma_utf8_size_bound("ぐ"@);
    reveal_strlit("いちゃう");
    lemma_utf8_size_bound("いちゃう"@);
    reveal_strlit("く");
    lemma_utf8_size_bound("く"@);
    reveal_strlit("しちゃう");
    lemma_utf8_size_bound("しちゃう"@);
    reveal_strlit("す");
    lemma_utf8_size_bound("す"@);
    reveal_strlit("っちゃう");
    lemma_utf8_size_bound("っちゃう"@);
    reveal_strlit("う");
    lemma_utf8_size_bound("う"@);
    reveal_strlit("つ");
    lemma_utf8_size_bound("つ"@);
    reveal_strlit("んじゃう");
    lemma_utf8_size_bound("んじゃう"@);
    reveal_strlit("ぬ");
    lemma_utf8_size_bound("ぬ"@);
    reveal_strlit("ぶ");
    lemma_utf8_size_bound("ぶ"@);
    reveal_strlit("む");
    lemma_utf8_size_bound("む"@);
    reveal_strlit("じちゃう");
    lemma_utf8_size_bound("じちゃう"@);
    reveal_strlit("ずる");
    lemma_utf8_size_bound("ずる"@);
    reveal_strlit("する");
    lemma_utf8_size_bound("する"@);
    reveal_strlit("為ちゃう");
    lemma_utf8_size_bound("為ちゃう"@);
    reveal_strlit("為る");
    lemma_utf8_size_bound("為る"@);
    reveal_strlit("きちゃう");
    lemma_utf8_size_bound("きちゃう"@);
    reveal_strlit("くる");
    lemma_utf8_size_bound("くる"@);
    reveal_strlit("来ちゃう");
    lemma_utf8_size_bound("来ちゃう"@);
    reveal_strlit("来る");
    lemma_utf8_size_bound("来る"@);
    reveal_strlit("來ちゃう");
    lemma_utf8_size_bound("來ちゃう"@);
    reveal_strlit("來る");
    lemma_utf8_size_bound("來る"@);
}

fn transform_3() -> (r: Transform)
    ensures
        rules_view(r.rules@) == rules_3(),
{
    let mut rules: Vec<Inflection> = Vec::new();
    rules.push(suffix_inflection("ちゃう", "る", Conditions(Conditions::v5).with_subconditions(), Conditions(Conditions::v1).with_subconditions()));
    rules.push(suffix_inflection("いじゃう", "ぐ", Conditions(Conditions::v5).with_subconditions(), Conditions(Conditions::v5).with_subconditions()));
    rules.push(suffix_inflection("いちゃう", "く", Conditions(Conditions::v5).with_subconditions(), Conditions(Conditions::v5).with_subconditions()));
    rules.push(suffix_inflection("しちゃう", "す", Conditions(Conditions::v5).with_subconditions(), Conditions(Conditions::v5).with_subconditions()));
    rules.push(suffix_inflection("っちゃう", "う", Conditions(Conditions::v5).with_subconditions(), Conditions(Conditions::v5).with_subconditions()));
    rules.push(suffix_inflection("っちゃう", "く", Conditions(Conditions::v5).with_subconditions(), Conditions(Conditions::v5).with_subconditions()));
    rules.push(suffix_inflection("っちゃう", "つ", Conditions(Conditions::v5).with_subconditions(), Conditions(Conditions::v5).with_subconditions()));
    rules.push(suffix_inflection("っちゃう", "る", Conditions(Conditions::v5).with_subconditions(), Conditions(Conditions::v5).with_subconditions()));
    rules.push(suffix_inflection("んじゃう", "ぬ", Conditions(Conditions::v5).with_subconditions(), Conditions(Conditions::v5).with_subconditions()));
    rules.push(suffix_inflection("んじゃう", "ぶ", Conditions(Conditions::v5).with_subconditions(), Conditions(Conditions::v5).with_subconditions()));
    rules.push(suffix_inflection("んじゃう", "む", Conditions(Conditions::v5).with_subconditions(), Conditions(Conditions::v5).with_subconditions()));
    rules.push(suffix_inflection("じちゃう", "ずる", Conditions(Conditions::v5).with_subconditions(), Conditions(Conditions::vz).with_subconditions()));
    rules.push(suffix_inflection("しちゃう", "する", Conditions(Conditions::v5).with_subconditions(), Conditions(Conditions::vs).with_subconditions()));
    rules.push(suffix_inflection("為ちゃう", "為る", Conditions(Conditions::v5).with_subconditions(), Conditions(Conditions::vs).with_subconditions()));
    rules.push(suffix_inflection("きちゃう", "くる", Conditions(Conditions::v5).with_subconditions(), Conditions(Conditions::vk).with_subconditions()));
    rules.push(suffix_inflection("来ちゃう", "来る", Conditions(Conditions::v5).with_subconditions(), Conditions(Conditions::vk).with_subconditions()));
    rules.push(suffix_inflection("來ちゃう", "來る", Conditions(Conditions::v5).with_subconditions(), Conditions(Conditions::vk).with_subconditions()));
    proof {
        reveal(rules_3);
        assert(rules_view(rules@) =~~= rules_3());
    }
    Transform { name: "-ちゃう", description: "Contraction of -しまう.\n\n1. Shows a sense of regret/surprise when you did have volition in doing something, but it turned out to be bad to do.\n2. Shows perfective/punctual achievement. This shows that an action has been completed.\n3. Shows unintentional action–\\\"accidentally\\\".\n\nUsage: Attach しまう after the て-form of verbs, contract てしまう into ちゃう.\n", rules }
}

/// The rules of `-ちまう`: ending, replacement, conditions in and out,
/// and endings rewritten first.
#[verifier::opaque]
pub open spec fn rules_4() -> Seq<RuleView> {
    seq![
        ("ちまう"@, "る"@, subconditions_added(Conditions::v5), subconditions_added(Conditions::v1), Seq::<(Seq<char>, Seq<char>)>::empty()),
        ("いじまう"@, "ぐ"@, subconditions_added(Conditions::v5), subconditions_added(Conditions::v5), Seq::<(Seq<char>, Seq<char>)>::empty()),
        ("いちまう"@, "く"@, subconditions_added(Conditions::v5), subconditions_added(Conditions::v5), Seq::<(Seq<char>, Seq<char>)>::empty()),
        ("しちまう"@, "す"@, subconditions_added(Conditions::v5), subconditions_added(Conditions::v5), Seq::<(Seq<char>, Seq<char>)>::empty()),
        ("っちまう"@, "う"@, subconditions_added(Conditions::v5), subconditions_added(Conditions::v5), Seq::<(Seq<char>, Seq<char>)>::empty()),
        ("っちまう"@, "く"@, subconditions_added(Conditions::v5), subconditions_added(Conditions::v5), Seq::<(Seq<char>, Seq<char>)>::empty()),
        ("っちまう"@, "つ"@, subconditions_added(Conditions::v5), subconditions_added(Conditions::v5), Seq::<(Seq<char>, Seq<char>)>::empty()),
        ("っちまう"@, "る"@, subconditions_added(Conditions::v5), subconditions_added(Conditions::v5), Seq::<(Seq<char>, Seq<char>)>::empty()),
        ("んじまう"@, "ぬ"@, subconditions_added(Conditions::v5), subconditions_added(Conditions::v5), Seq::<(Seq<char>, Seq<char>)>::empty()),
        ("んじまう"@, "ぶ"@, subconditions_added(Conditions::v5), subconditions_added(Conditions::v5), Seq::<(Seq<char>, Seq<char>)>::empty()),
        ("んじまう"@, "む"@, subconditions_added(Conditions::v5), subconditions_added(Conditions::v5), Seq::<(Seq<char>, Seq<char>)>::empty()),
        ("じちまう"@, "ずる"@, subconditions_added(Conditions::v5), subconditions_added(Conditions::vz), Seq::<(Seq<char>, Seq<char>)>::empty()),
        ("しちまう"@, "する"@, subconditions_added(Conditions::v5), subconditions_added(Conditions::vs), Seq::<(Seq<char>, Seq<char>)>::empty()),
        ("為ちまう"@, "為る"@, subconditions_added(Conditions::v5), subconditions_added(Conditions::vs), Seq::<(Seq<char>, Seq<char>)>::empty()),
        ("きちまう"@, "くる"@, subconditions_added(Conditions::v5), subconditions_added(Conditions::vk), Seq::<(Seq<char>, Seq<char>)>::empty()),
        ("来ちまう"@, "来る"@, subconditions_added(Conditions::v5), subconditions_added(Conditions::vk), Seq::<(Seq<char>, Seq<char>)>::empty()),
        ("來ちまう"@, "來る"@, subconditions_added(Conditions::v5), subconditions_added(Conditions::vk), Seq::<(Seq<char>, Seq<char>)>::empty()),
    ]
}

#[verifier::rlimit(60)]
proof fn lemma_rules_4_ok()
    ensures
        forall|i: int| 0 <= i < rules_4().len() ==> #[trigger] rule_view_ok(rules_4()[i]),
        forall|i: int| 0 <= i < rules_4().len() ==> #[trigger] keeps_godan_rows(rules_4()[i]),
{
    reveal(rules_4);
    reveal_strlit("ちまう");
    lemma_utf8_size_bound("ちまう"@);
    reveal_strlit("る");
    lemma_utf8_size_bound("る"@);
    reveal_strlit("いじまう");
    lemma_utf8_size_bound("いじまう"@);
    reveal_strlit("ぐ");
    lemma_utf8_size_bound("ぐ"@);
    reveal_strlit("いちまう");
    lemma_utf8_size_bound("いちまう"@);
    reveal_strlit("く");
    lemma_utf8_size_bound("く"@);
    reveal_strlit("しちまう");
    lemma_utf8_size_bound("しちまう"@);
    reveal_strlit("す");
    lemma_utf8_size_bound("す"@);
    reveal_strlit("っちまう");
    lemma_utf8_size_bound("っちまう"@);
    reveal_strlit("う");
    lemma_utf8_size_bound("う"@);
    reveal_strlit("つ");
    lemma_utf8_size_bound("つ"@);
    reveal_strlit("んじまう");
    lemma_utf8_size_bound("んじまう"@);
    reveal_strlit("ぬ");
    lemma_utf8_size_bound("ぬ"@);
    reveal_strlit("ぶ");
    lemma_utf8_size_bound("ぶ"@);
    reveal_strlit("む");
    lemma_utf8_size_bound("む"@);
    reveal_strlit("じちまう");
    lemma_utf8_size_bound("じちまう"@);
    reveal_strlit("ずる");
    lemma_utf8_size_bound("ずる"@);
    reveal_strlit("する");
    lemma_utf8_size_bound("する"@);
    reveal_strlit("為ちまう");
    lemma_utf8_size_bound("為ちまう"@);
    reveal_strlit("為る");
    lemma_utf8_size_bound("為る"@);
    reveal_strlit("きちまう");
    lemma_utf8_size_bound("きちまう"@);
    reveal_strlit("くる");
    lemma_utf8_size_bound("くる"@);
    reveal_strlit("来ちまう");
    lemma_utf8_size_bound("来ちまう"@);
    reveal_strlit("来る");
    lemma_utf8_size_bound("来る"@);
    reveal_strlit("來ちまう");
    lemma_utf8_size_bound("來ちまう"@);
    reveal_strlit("來る");
    lemma_utf8_size_bound("來る"@);
}

fn transform_4() -> (r: Transform)
    ensures
        rules_view(r.rules@) == rules_4(),
{
    let mut rules: Vec<Inflection> = Vec::new();
    rules.push(suffix_inflection("ちまう", "る", Conditions(Conditions::v5).with_subconditions(), Conditions(Conditions::v1).with_subconditions()));
    rules.push(suffix_inflection("いじまう", "ぐ", Conditions(Conditions::v5).with_subconditions(), Conditions(Conditions::v5).with_subconditions()));
    rules.push(suffix_inflection("いちまう", "く", Conditions(Conditions::v5).with_subconditions(), Conditions(Conditions::v5).with_subconditions()));
    rules.push(suffix_inflection("しちまう", "す", Conditions(Conditions::v5).with_subconditions(), Conditions(Conditions::v5).with_subconditions()));
    rules.push(suffix_inflection("っちまう", "う", Conditions(Conditions::v5).with_subconditions(), Conditions(Conditions::v5).with_subconditions()));
    rules.push(suffix_inflection("っちまう", "く", Conditions(Conditions::v5).with_subconditions(), Conditions(Conditions::v5).with_subconditions()));
    rules.push(suffix_inflection("っちまう", "つ", Conditions(Conditions::v5).with_subconditions(), Conditions(Conditions::v5).with_subconditions()));
    rules.push(suffix_inflection("っちまう", "る", Conditions(Conditions::v5).with_subconditions(), Conditions(Conditions::v5).with_subconditions()));
    rules.push(suffix_inflection("んじまう", "ぬ", Conditions(Conditions::v5).with_subconditions(), Conditions(Conditions::v5).with_subconditions()));
    rules.push(suffix_inflection("んじまう", "ぶ", Conditions(Conditions::v5).with_subconditions(), Conditions(Conditions::v5).with_subconditions()));
    rules.push(suffix_inflection("んじまう", "む", Conditions(Conditions::v5).with_subconditions(), Conditions(Conditions::v5).with_subconditions()));
    rules.push(suffix_inflection("じちまう", "ずる", Conditions(Conditions::v5).with_subconditions(), Conditions(Conditions::vz).with_subconditions()));
    rules.push(suffix_inflection("しちまう", "する", Conditions(Conditions::v5).with_subconditions(), Conditions(Conditions::vs).with_subconditions()));
    rules.push(suffix_inflection("為ちまう", "為る", Conditions(Conditions::v5).with_subconditions(), Conditions(Conditions::vs).with_subconditions()));
    rules.push(suffix_inflection("きちまう", "くる", Conditions(Conditions::v5).with_subconditions(), Conditions(Conditions::vk).with_subconditions()));
    rules.push(suffix_inflection("来ちまう", "来る", Conditions(Conditions::v5).with_subconditions(), Conditions(Conditions::vk).with_subconditions()));
    rules.push(suffix_inflection("來ちまう", "來る", Conditions(Conditions::v5).with_subconditions(), Conditions(Conditions::vk).with_subconditions()));
    proof {
        reveal(rules_4);
        assert(rules_view(rules@) =~~= rules_4());
    }
    Transform { name: "-ちまう", description: "Contraction of -しまう.\n\n1. Shows a sense of regret/surprise when you did have volition in doing something, but it turned out to be bad to do.\n2. Shows perfective/punctual achievement. This shows that an action has been completed.\n3. Shows unintentional action–\\\"accidentally\\\".\n\nUsage: Attach しまう after the て-form of verbs, contract てしまう into ちまう.\n", rules }
}

/// The rules of `-しまう`: ending, replacement, conditions in and out,
/// and endings rewritten first.
#[verifier::opaque]
pub open spec fn rules_5() -> Seq<RuleView> {
    seq![
        ("てしまう"@, "て"@, subconditions_added(Conditions::v5), subconditions_added(Conditions::te), Seq::<(Seq<char>, Seq<char>)>::empty()),
        ("でしまう"@, "で"@, subconditions_added(Conditions::v5), subconditions_added(Conditions::te), Seq::<(Seq<char>, Seq<char>)>::empty()),
    ]
}

#[verifier::rlimit(60)]
proof fn lemma_rules_5_ok()
    ensures
        forall|i: int| 0 <= i < rules_5().len() ==> #[trigger] rule_view_ok(rules_5()[i]),
        forall|i: int| 0 <= i < rules_5().len() ==> #[trigger] keeps_godan_rows(rules_5()[i]),
{
    reveal(rules_5);
    reveal_strlit("てしまう");
    lemma_utf8_size_bound("てしまう"@);
    reveal_strlit("て");
    lemma_utf8_size_bound("て"@);
    reveal_strlit("でしまう");
    lemma_utf8_size_bound("でしまう"@);
    reveal_strlit("で");
    lemma_utf8_size_bound("で"@);
}

fn transform_5() -> (r: Transform)
    ensures
        rules_view(r.rules@) == rules_5(),
{
    let mut rules: Vec<Inflection> = Vec::new();
    rules.push(suffix_inflection("てしまう", "て", Conditions(Conditions::v5).with_subconditions(), Conditions(Conditions::te).with_subconditions()));
    rules.push(suffix_inflection("でしまう", "で", Conditions(Conditions::v5).with_subconditions(), Conditions(Conditions::te).with_subconditions()));
    proof {
        reveal(rules_5);
        assert(rules_view(rules@) =~~= rules_5());
    }
    Transform { name: "-しまう", description: "1. Shows a sense of regret/surprise when you did have volition in doing something, but it turned out to be bad to do.\n2. Shows perfective/punctual achievement. This shows that an action has been completed.\n3. Shows unintentional action–\\\"accidentally\\\".\n\nUsage: Attach しまう after the て-form of verbs.\n", rules }
}

/// The rules of `-なさい`: ending, replacement, conditions in and out,
/// and endings rewritten first.
#[verifier::opaque]
pub open spec fn rules_6() -> Seq<RuleView> {
    seq![
        ("なさい"@, "る"@, subconditions_added(Conditions::nasai), subconditions_added(Conditions::v1), Seq::<(Seq<char>, Seq<char>)>::empty()),
        ("いなさい"@, "う"@, subconditions_added(Conditions::nasai), subconditions_added(Conditions::v5), Seq::<(Seq<char>, Seq<char>)>::empty()),
        ("きなさい"@, "く"@, subconditions_added(Conditions::nasai), subconditions_added(Conditions::v5), Seq::<(Seq<char>, Seq<char>)>::empty()),
        ("ぎなさい"@, "ぐ"@, subconditions_added(Conditions::nasai), subconditions_added(Conditions::v5), Seq::<(Seq<char>, Seq<char>)>::empty()),
        ("しなさい"@, "す"@, subconditions_added(Conditions::nasai), subconditions_added(Conditions::v5), Seq::<(Seq<char>, Seq<char>)>::empty()),
        ("ちなさい"@, "つ"@, subconditions_added(Conditions::nasai), subconditions_added(Conditions::v5), Seq::<(Seq<char>, Seq<char>)>::empty()),
        ("になさい"@, "ぬ"@, subconditions_added(Conditions::nasai), subconditions_added(Conditions::v5), Seq::<(Seq<char>, Seq<char>)>::empty()),
        ("びなさい"@, "ぶ"@, subconditions_added(Conditions::nasai), subconditions_added(Conditions::v5), Seq::<(Seq<char>, Seq<char>)>::empty()),
        ("みなさい"@, "む"@, subconditions_added(Conditions::nasai), subconditions_added(Conditions::v5), Seq::<(Seq<char>, Seq<char>)>::empty()),
        ("りなさい"@, "る"@, subconditions_added(Conditions::nasai), subconditions_added(Conditions::v5), Seq::<(Seq<char>, Seq<char>)>::empty()),
        ("じなさい"@, "ずる"@, subconditions_added(Conditions::nasai), subconditions_added(Conditions::vz), Seq::<(Seq<char>, Seq<char>)>::empty()),
        ("しなさい"@, "する"@, subconditions_added(Conditions::nasai), subconditions_added(Conditions::vs), Seq::<(Seq<char>, Seq<char>)>::empty()),
        ("為なさい"@, "為る"@, subconditions_added(Conditions::nasai), subconditions_added(Conditions::vs), Seq::<(Seq<char>, Seq<char>)>::empty()),
        ("きなさい"@, "くる"@, subconditions_added(Conditions::nasai), subconditions_added(Conditions::vk), Seq::<(Seq<char>, Seq<char>)>::empty()),
        ("来なさい"@, "来る"@, subconditions_added(Conditions::nasai), subconditions_added(Conditions::vk), Seq::<(Seq<char>, Seq<char>)>::empty()),
        ("來なさい"@, "來る"@, subconditions_added(Conditions::nasai), subconditions_added(Conditions::vk), Seq::<(Seq<char>, Seq<char>)>::empty()),
    ]
}

#[verifier::rlimit(60)]
proof fn lemma_rules_6_ok()
    ensures
        forall|i: int| 0 <= i < rules_6().len() ==> #[trigger] rule_view_ok(rules_6()[i]),
        forall|i: int| 0 <= i < rules_6().len() ==> #[trigger] keeps_godan_rows(rules_6()[i]),
{
    reveal(rules_6);
    reveal_strlit("なさい");
    lemma_utf8_size_bound("なさい"@);
    reveal_strlit("る");
    lemma_utf8_size_bound("る"@);
    reveal_strlit("いなさい");
    lemma_utf8_size_bound("いなさい"@);
    reveal_strlit("う");
    lemma_utf8_size_bound("う"@);
    reveal_strlit("きなさい");
    lemma_utf8_size_bound("きなさい"@);
    reveal_strlit("く");
    lemma_utf8_size_bound("く"@);
    reveal_strlit("ぎなさい");
    lemma_utf8_size_bound("ぎなさい"@);
    reveal_strlit("ぐ");
    lemma_utf8_size_bound("ぐ"@);
    reveal_strlit("しなさい");
    lemma_utf8_size_bound("しなさい"@);
    reveal_strlit("す");
    lemma_utf8_size_bound("す"@);
    reveal_strlit("ちなさい");
    lemma_utf8_size_bound("ちなさい"@);
    reveal_strlit("つ");
    lemma_utf8_size_bound("つ"@);
    reveal_strlit("になさい");
    lemma_utf8_size_bound("になさい"@);
    reveal_strlit("ぬ");
    lemma_utf8_size_bound("ぬ"@);
    reveal_strlit("びなさい");
    lemma_utf8_size_bound("びなさい"@);
    reveal_strlit("ぶ");
    lemma_utf8_size_bound("ぶ"@);
    reveal_strlit("みなさい");
    lemma_utf8_size_bound("みなさい"@);
    reveal_strlit("む");
    lemma_utf8_size_bound("む"@);
    reveal_strlit("りなさい");
    lemma_utf8_size_bound("りなさい"@);
    reveal_strlit("じなさい");
    lemma_utf8_size_bound("じなさい"@);
    reveal_strlit("ずる");
    lemma_utf8_size_bound("ずる"@);
    reveal_strlit("する");
    lemma_utf8_size_bound("する"@);
    reveal_strlit("為なさい");
    lemma_utf8_size_bound("為なさい"@);
    reveal_strlit("為る");
    lemma_utf8_size_bound("為る"@);
    reveal_strlit("くる");
    lemma_utf8_size_bound("くる"@);
    reveal_strlit("来なさい");
    lemma_utf8_size_bound("来なさい"@);
    reveal_strlit("来る");
    lemma_utf8_size_bound("来る"@);
    reveal_strlit("來なさい");
    lemma_utf8_size_bound("來なさい"@);
    reveal_strlit("來る");
    lemma_utf8_size_bound("來る"@);
}

fn transform_6() -> (r: Transform)
    ensures
        rules_view(r.rules@) == rules_6(),
{
    let mut rules: Vec<Inflection> = Vec::new();
    rules.push(suffix_inflection("なさい", "る", Conditions(Conditions::nasai).with_subconditions(), Conditions(Conditions::v1).with_subconditions()));
    rules.push(suffix_inflection("いなさい", "う", Conditions(Conditions::nasai).with_subconditions(), Conditions(Conditions::v5).with_subconditions()));
    rules.push(suffix_inflection("きなさい", "く", Conditions(Conditions::nasai).with_subconditions(), Conditions(Conditions::v5).with_subconditions()));
    rules.push(suffix_inflection("ぎなさい", "ぐ", Conditions(Conditions::nasai).with_subconditions(), Conditions(Conditions::v5).with_subconditions()));
    rules.push(suffix_inflection("しなさい", "す", Conditions(Conditions::nasai).with_subconditions(), Conditions(Conditions::v5).with_subconditions()));
    rules.push(suffix_inflection("ちなさい", "つ", Conditions(Conditions::nasai).with_subconditions(), Conditions(Conditions::v5).with_subconditions()));
    rules.push(suffix_inflection("になさい", "ぬ", Conditions(Conditions::nasai).with_subconditions(), Conditions(Conditions::v5).with_subconditions()));
    rules.push(suffix_inflection("びなさい", "ぶ", Conditions(Conditions::nasai).with_subconditions(), Conditions(Conditions::v5).with_subconditions()));
    rules.push(suffix_inflection("みなさい", "む", Conditions(Conditions::nasai).with_subconditions(), Conditions(Conditions::v5).with_subconditions()));
    rules.push(suffix_inflection("りなさい", "る", Conditions(Conditions::nasai).with_subconditions(), Conditions(Conditions::v5).with_subconditions()));
    rules.push(suffix_inflection("じなさい", "ずる", Conditions(Conditions::nasai).with_subconditions(), Conditions(Conditions::vz).with_subconditions()));
    rules.push(suffix_inflection("しなさい", "する", Conditions(Conditions::nasai).with_subconditions(), Conditions(Conditions::vs).with_subconditions()));
    rules.push(suffix_inflection("為なさい", "為る", Conditions(Conditions::nasai).with_subconditions(), Conditions(Conditions::vs).with_subconditions()));
    rules.push(suffix_inflection("きなさい", "くる", Conditions(Conditions::nasai).with_subconditions(), Conditions(Conditions::vk).with_subconditions()));
    rules.push(suffix_inflection("来なさい", "来る", Conditions(Conditions::nasai).with_subconditions(), Conditions(Conditions::vk).with_subconditions()));
    rules.push(suffix_inflection("來なさい", "來る", Conditions(Conditions::nasai).with_subconditions(), Conditions(Conditions::vk).with_subconditions()));
    proof {
        reveal(rules_6);
        assert(rules_view(rules@) =~~= rules_6());
    }
    Transform { name: "-なさい", description: "Polite imperative suffix.\n\nUsage: Attach なさい after the continuative form (連用形) of verbs.\n", rules }
}

/// The rules of `-そう`: ending, replacement, conditions in and out,
/// and endings rewritten first.
#[verifier::opaque]
pub open spec fn rules_7() -> Seq<RuleView> {
    seq![
        ("そう"@, "い"@, 0u32, subconditions_added(Conditions::adj_i), Seq::<(Seq<char>, Seq<char>)>::empty()),
        ("そう"@, "る"@, 0u32, subconditions_added(Conditions::v1), Seq::<(Seq<char>, Seq<char>)>::empty()),
        ("いそう"@, "う"@, 0u32, subconditions_added(Conditions::v5), Seq::<(Seq<char>, Seq<char>)>::empty()),
        ("きそう"@, "く"@, 0u32, subconditions_added(Conditions::v5), Seq::<(Seq<char>, Seq<char>)>::empty()),
        ("ぎそう"@, "ぐ"@, 0u32, subconditions_added(Conditions::v5), Seq::<(Seq<char>, Seq<char>)>::empty()),
        ("しそう"@, "す"@, 0u32, subconditions_added(Conditions::v5), Seq::<(Seq<char>, Seq<char>)>::empty()),
        ("ちそう"@, "つ"@, 0u32, subconditions_added(Conditions::v5), Seq::<(Seq<char>, Seq<char>)>::empty()),
        ("にそう"@, "ぬ"@, 0u32, subconditions_added(Conditions::v5), Seq::<(Seq<char>, Seq<char>)>::empty()),
        ("びそう"@, "ぶ"@, 0u32, subconditions_added(Conditions::v5), Seq::<(Seq<char>, Seq<char>)>::empty()),
        ("みそう"@, "む"@, 0u32, subconditions_added(Conditions::v5), Seq::<(Seq<char>, Seq<char>)>::empty()),
        ("りそう"@, "る"@, 0u32, subconditions_added(Conditions::v5), Seq::<(Seq<char>, Seq<char>)>::empty()),
        ("じそう"@, "ずる"@, 0u32, subconditions_added(Conditions::vz), Seq::<(Seq<char>, Seq<char>)>::empty()),
        ("しそう"@, "する"@, 0u32, subconditions_added(Conditions::vs), Seq::<(Seq<char>, Seq<char>)>::empty()),
        ("為そう"@, "為る"@, 0u32, subconditions_added(Conditions::vs), Seq::<(Seq<char>, Seq<char>)>::empty()),
        ("きそう"@, "くる"@, 0u32, subconditions_added(Conditions::vk), Seq::<(Seq<char>, Seq<char>)>::empty()),
        ("来そう"@, "来る"@, 0u32, subconditions_added(Conditions::vk), Seq::<(Seq<char>, Seq<char>)>::empty()),
        ("來そう"@, "來る"@, 0u32, subconditions_added(Conditions::vk), Seq::<(Seq<char>, Seq<char>)>::empty()),
    ]
}

#[verifier::rlimit(60)]
proof fn lemma_rules_7_ok()
    ensures
        forall|i: int| 0 <= i < rules_7().len() ==> #[trigger] rule_view_ok(rules_7()[i]),
        forall|i: int| 0 <= i < rules_7().len() ==> #[trigger] keeps_godan_rows(rules_7()[i]),
{
    reveal(rules_7);
    reveal_strlit("そう");
    lemma_utf8_size_bound("そう"@);
    reveal_strlit("い");
    lemma_utf8_size_bound("い"@);
    reveal_strlit("る");
    lemma_utf8_size_bound("る"@);
    reveal_strlit("いそう");
    lemma_utf8_size_bound("いそう"@);
    reveal_strlit("う");
    lemma_utf8_size_bound("う"@);
    reveal_strlit("きそう");
    lemma_utf8_size_bound("きそう"@);
    reveal_strlit("く");
    lemma_utf8_size_bound("く"@);
    reveal_strlit("ぎそう");
    lemma_utf8_size_bound("ぎそう"@);
    reveal_strlit("ぐ");
    lemma_utf8_size_bound("ぐ"@);
    reveal_strlit("しそう");
    lemma_utf8_size_bound("しそう"@);
    reveal_strlit("す");
    lemma_utf8_size_bound("す"@);
    reveal_strlit("ちそう");
    lemma_utf8_size_bound("ちそう"@);
    reveal_strlit("つ");
    lemma_utf8_size_bound("つ"@);
    reveal_strlit("にそう");
    lemma_utf8_size_bound("にそう"@);
    reveal_strlit("ぬ");
    lemma_utf8_size_bound("ぬ"@);
    reveal_strlit("びそう");
    lemma_utf8_size_bound("びそう"@);
    reveal_strlit("ぶ");
    lemma_utf8_size_bound("ぶ"@);
    reveal_strlit("みそう");
    lemma_utf8_size_bound("みそう"@);
    reveal_strlit("む");
    lemma_utf8_size_bound("む"@);
    reveal_strlit("りそう");
    lemma_utf8_size_bound("りそう"@);
    reveal_strlit("じそう");
    lemma_utf8_size_bound("じそう"@);
    reveal_strlit("ずる");
    lemma_utf8_size_bound("ずる"@);
    reveal_strlit("する");
    lemma_utf8_size_bound("する"@);
    reveal_strlit("為そう");
    lemma_utf8_size_bound("為そう"@);
    reveal_strlit("為る");
    lemma_utf8_size_bound("為る"@);
    reveal_strlit("くる");
    lemma_utf8_size_bound("くる"@);
    reveal_strlit("来そう");
    lemma_utf8_size_bound("来そう"@);
    reveal_strlit("来る");
    lemma_utf8_size_bound("来る"@);
    reveal_strlit("來そう");
    lemma_utf8_size_bound("來そう"@);
    reveal_strlit("來る");
    lemma_utf8_size_bound("來る"@);
}

fn transform_7() -> (r: Transform)
    ensures
        rules_view(r.rules@) == rules_7(),
{
    let mut rules: Vec<Inflection> = Vec::new();
    rules.push(suffix_inflection("そう", "い", 0, Conditions(Conditions::adj_i).with_subconditions()));
    rules.push(suffix_inflection("そう", "る", 0, Conditions(Conditions::v1).with_subconditions()));
    rules.push(suffix_inflection("いそう", "う", 0, Conditions(Conditions::v5).with_subconditions()));
    rules.push(suffix_inflection("きそう", "く", 0, Conditions(Conditions::v5).with_subconditions()));
    rules.push(suffix_inflection("ぎそう", "ぐ", 0, Conditions(Conditions::v5).with_subconditions()));
    rules.push(suffix_inflection("しそう", "す", 0, Conditions(Conditions::v5).with_subconditions()));
    rules.push(suffix_inflection("ちそう", "つ", 0, Conditions(Conditions::v5).with_subconditions()));
    rules.push(suffix_inflection("にそう", "ぬ", 0, Conditions(Conditions::v5).with_subconditions()));
    rules.push(suffix_inflection("びそう", "ぶ", 0, Conditions(Conditions::v5).with_subconditions()));
    rules.push(suffix_inflection("みそう", "む", 0, Conditions(Conditions::v5).with_subconditions()));
    rules.push(suffix_inflection("りそう", "る", 0, Conditions(Conditions::v5).with_subconditions()));
    rules.push(suffix_inflection("じそう", "ずる", 0, Conditions(Conditions::vz).with_subconditions()));
    rules.push(suffix_inflection("しそう", "する", 0, Conditions(Conditions::vs).with_subconditions()));
    rules.push(suffix_inflection("為そう", "為る", 0, Conditions(Conditions::vs).with_subconditions()));
    rules.push(suffix_inflection("きそう", "くる", 0, Conditions(Conditions::vk).with_subconditions()));
    rules.push(suffix_inflection("来そう", "来る", 0, Conditions(Conditions::vk).with_subconditions()));
    rules.push(suffix_inflection("來そう", "來る", 0, Conditions(Conditions::vk).with_subconditions()));
    proof {
        reveal(rules_7);
        assert(rules_view(rules@) =~~= rules_7());
    }
    Transform { name: "-そう", description: "Appearing that; looking like.\n\nUsage: Attach そう to the continuative form (連用形) of verbs, or to the stem of adjectives.\n", rules }
}

/// The rules of `-すぎる`: ending, replacement, conditions in and out,
/// and endings rewritten first.
#[verifier::opaque]
pub open spec fn rules_8() -> Seq<RuleView> {
    seq![
        ("すぎる"@, "い"@, subconditions_added(Conditions::v1), subconditions_added(Conditions::adj_i), Seq::<(Seq<char>, Seq<char>)>::empty()),
        ("すぎる"@, "る"@, subconditions_added(Conditions::v1), subconditions_added(Conditions::v1), Seq::<(Seq<char>, Seq<char>)>::empty()),
        ("いすぎる"@, "う"@, subconditions_added(Conditions::v1), subconditions_added(Conditions::v5), Seq::<(Seq<char>, Seq<char>)>::empty()),
        ("きすぎる"@, "く"@, subconditions_added(Conditions::v1), subconditions_added(Conditions::v5), Seq::<(Seq<char>, Seq<char>)>::empty()),
        ("ぎすぎる"@, "ぐ"@, subconditions_added(Conditions::v1), subconditions_added(Conditions::v5), Seq::<(Seq<char>, Seq<char>)>::empty()),
        ("しすぎる"@, "す"@, subconditions_added(Conditions::v1), subconditions_added(Conditions::v5), Seq::<(Seq<char>, Seq<char>)>::empty()),
        ("ちすぎる"@, "つ"@, subconditions_added(Conditions::v1), subconditions_added(Conditions::v5), Seq::<(Seq<char>, Seq<char>)>::empty()),
        ("にすぎる"@, "ぬ"@, subconditions_added(Conditions::v1), subconditions_added(Conditions::v5), Seq::<(Seq<char>, Seq<char>)>::empty()),
        ("びすぎる"@, "ぶ"@, subconditions_added(Conditions::v1), subconditions_added(Conditions::v5), Seq::<(Seq<char>, Seq<char>)>::empty()),
        ("みすぎる"@, "む"@, subconditions_added(Conditions::v1), subconditions_added(Conditions::v5), Seq::<(Seq<char>, Seq<char>)>::empty()),
        ("りすぎる"@, "る"@, subconditions_added(Conditions::v1), subconditions_added(Conditions::v5), Seq::<(Seq<char>, Seq<char>)>::empty()),
        ("じすぎる"@, "ずる"@, subconditions_added(Conditions::v1), subconditions_added(Conditions::vz), Seq::<(Seq<char>, Seq<char>)>::empty()),
        ("しすぎる"@, "する"@, subconditions_added(Conditions::v1), subconditions_added(Conditions::vs), Seq::<(Seq<char>, Seq<char>)>::empty()),
        ("為すぎる"@, "為る"@, subconditions_added(Conditions::v1), subconditions_added(Conditions::vs), Seq::<(Seq<char>, Seq<char>)>::empty()),
        ("きすぎる"@, "くる"@, subconditions_added(Conditions::v1), subconditions_added(Conditions::vk), Seq::<(Seq<char>, Seq<char>)>::empty()),
        ("来すぎる"@, "来る"@, subconditions_added(Conditions::v1), subconditions_added(Conditions::vk), Seq::<(Seq<char>, Seq<char>)>::empty()),
        ("來すぎる"@, "來る"@, subconditions_added(Conditions::v1), subconditions_added(Conditions::vk), Seq::<(Seq<char>, Seq<char>)>::empty()),
    ]
}

#[verifier::rlimit(60)]
proof fn lemma_rules_8_ok()
    ensures
        forall|i: int| 0 <= i < rules_8().len() ==> #[trigger] rule_view_ok(rules_8()[i]),
        forall|i: int| 0 <= i < rules_8().len() ==> #[trigger] keeps_godan_rows(rules_8()[i]),
{
    reveal(rules_8);
    reveal_strlit("すぎる");
    lemma_utf8_size_bound("すぎる"@);
    reveal_strlit("い");
    lemma_utf8_size_bound("い"@);
    reveal_strlit("る");
    lemma_utf8_size_bound("る"@);
    reveal_strlit("いすぎる");
    lemma_utf8_size_bound("いすぎる"@);
    reveal_strlit("う");
    lemma_utf8_size_bound("う"@);
    reveal_strlit("きすぎる");
    lemma_utf8_size_bound("きすぎる"@);
    reveal_strlit("く");
    lemma_utf8_size_bound("く"@);
    reveal_strlit("ぎすぎる");
    lemma_utf8_size_bound("ぎすぎる"@);
    reveal_strlit("ぐ");
    lemma_utf8_size_bound("ぐ"@);
    reveal_strlit("しすぎる");
    lemma_utf8_size_bound("しすぎる"@);
    reveal_strlit("す");
    lemma_utf8_size_bound("す"@);
    reveal_strlit("ちすぎる");
    lemma_utf8_size_bound("ちすぎる"@);
    reveal_strlit("つ");
    lemma_utf8_size_bound("つ"@);
    reveal_strlit("にすぎる");
    lemma_utf8_size_bound("にすぎる"@);
    reveal_strlit("ぬ");
    lemma_utf8_size_bound("ぬ"@);
    reveal_strlit("びすぎる");
    lemma_utf8_size_bound("びすぎる"@);
    reveal_strlit("ぶ");
    lemma_utf8_size_bound("ぶ"@);
    reveal_strlit("みすぎる");
    lemma_utf8_size_bound("みすぎる"@);
    reveal_strlit("む");
    lemma_utf8_size_bound("む"@);
    reveal_strlit("りすぎる");
    lemma_utf8_size_bound("りすぎる"@);
    reveal_strlit("じすぎる");
    lemma_utf8_size_bound("じすぎる"@);
    reveal_strlit("ずる");
    lemma_utf8_size_bound("ずる"@);
    reveal_strlit("する");
    lemma_utf8_size_bound("する"@);
    reveal_strlit("為すぎる");
    lemma_utf8_size_bound("為すぎる"@);
    reveal_strlit("為る");
    lemma_utf8_size_bound("為る"@);
    reveal_strlit("くる");
    lemma_utf8_size_bound("くる"@);
    reveal_strlit("来すぎる");
    lemma_utf8_size_bound("来すぎる"@);
    reveal_strlit("来る");
    lemma_utf8_size_bound("来る"@);
    reveal_strlit("來すぎる");
    lemma_utf8_size_bound("來すぎる"@);
    reveal_strlit("來る");
    lemma_utf8_size_bound("來る"@);
}

fn transform_8() -> (r: Transform)
    ensures
        rules_view(r.rules@) == rules_8(),
{
    let mut rules: Vec<Inflection> = Vec::new();
    rules.push(suffix_inflection("すぎる", "い", Conditions(Conditions::v1).with_subconditions(), Conditions(Conditions::adj_i).with_subconditions()));
    rules.push(suffix_inflection("すぎる", "る", Conditions(Conditions::v1).with_subconditions(), Conditions(Conditions::v1).with_subconditions()));
    rules.push(suffix_inflection("いすぎる", "う", Conditions(Conditions::v1).with_subconditions(), Conditions(Conditions::v5).with_subconditions()));
    rules.push(suffix_inflection("きすぎる", "く", Conditions(Conditions::v1).with_subconditions(), Conditions(Conditions::v5).with_subconditions()));
    rules.push(suffix_inflection("ぎすぎる", "ぐ", Conditions(Conditions::v1).with_subconditions(), Conditions(Conditions::v5).with_subconditions()));
    rules.push(suffix_inflection("しすぎる", "す", Conditions(Conditions::v1).with_subconditions(), Conditions(Conditions::v5).with_subconditions()));
    rules.push(suffix_inflection("ちすぎる", "つ", Conditions(Conditions::v1).with_subconditions(), Conditions(Conditions::v5).with_subconditions()));
    rules.push(suffix_inflection("にすぎる", "ぬ", Conditions(Conditions::v1).with_subconditions(), Conditions(Conditions::v5).with_subconditions()));
    rules.push(suffix_inflection("びすぎる", "ぶ", Conditions(Conditions::v1).with_subconditions(), Conditions(Conditions::v5).with_subconditions()));
    rules.push(suffix_inflection("みすぎる", "む", Conditions(Conditions::v1).with_subconditions(), Conditions(Conditions::v5).with_subconditions()));
    rules.push(suffix_inflection("りすぎる", "る", Conditions(Conditions::v1).with_subconditions(), Conditions(Conditions::v5).with_subconditions()));
    rules.push(suffix_inflection("じすぎる", "ずる", Conditions(Conditions::v1).with_subconditions(), Conditions(Conditions::vz).with_subconditions()));
    rules.push(suffix_inflection("しすぎる", "する", Conditions(Conditions::v1).with_subconditions(), Conditions(Conditions::vs).with_subconditions()));
    rules.push(suffix_inflection("為すぎる", "為る", Conditions(Conditions::v1).with_subconditions(), Conditions(Conditions::vs).with_subconditions()));
    rules.push(suffix_inflection("きすぎる", "くる", Conditions(Conditions::v1).with_subconditions(), Conditions(Conditions::vk).with_subconditions()));
    rules.push(suffix_inflection("来すぎる", "来る", Conditions(Conditions::v1).with_subconditions(), Conditions(Conditions::vk).with_subconditions()));
    rules.push(suffix_inflection("來すぎる", "來る", Conditions(Conditions::v1).with_subconditions(), Conditions(Conditions::vk).with_subconditions()));
    proof {
        reveal(rules_8);
        assert(rules_view(rules@) =~~= rules_8());
    }
    Transform { name: "-すぎる", description: "Shows something \\\"is too...\\\" or someone is doing something \\\"too much\\\".\n\nUsage: Attach すぎる to the continuative form (連用形) of verbs, or to the stem of adjectives.'\n", rules }
}

/// The rules of `-過ぎる`: ending, replacement, conditions in and out,
/// and endings rewritten first.
#[verifier::opaque]
pub open spec fn rules_9() -> Seq<RuleView> {
    seq![
        ("過ぎる"@, "い"@, subconditions_added(Conditions::v1), subconditions_added(Conditions::adj_i), Seq::<(Seq<char>, Seq<char>)>::empty()),
        ("過ぎる"@, "る"@, subconditions_added(Conditions::v1), subconditions_added(Conditions::v1), Seq::<(Seq<char>, Seq<char>)>::empty()),
        ("い過ぎる"@, "う"@, subconditions_added(Conditions::v1), subconditions_added(Conditions::v5), Seq::<(Seq<char>, Seq<char>)>::empty()),
        ("き過ぎる"@, "く"@, subconditions_added(Conditions::v1), subconditions_added(Conditions::v5), Seq::<(Seq<char>, Seq<char>)>::empty()),
        ("ぎ過ぎる"@, "ぐ"@, subconditions_added(Conditions::v1), subconditions_added(Conditions::v5), Seq::<(Seq<char>, Seq<char>)>::empty()),
        ("し過ぎる"@, "す"@, subconditions_added(Conditions::v1), subconditions_added(Conditions::v5), Seq::<(Seq<char>, Seq<char>)>::empty()),
        ("ち過ぎる"@, "つ"@, subconditions_added(Conditions::v1), subconditions_added(Conditions::v5), Seq::<(Seq<char>, Seq<char>)>::empty()),
        ("に過ぎる"@, "ぬ"@, subconditions_added(Conditions::v1), subconditions_added(Conditions::v5), Seq::<(Seq<char>, Seq<char>)>::empty()),
        ("び過ぎる"@, "ぶ"@, subconditions_added(Conditions::v1), subconditions_added(Conditions::v5), Seq::<(Seq<char>, Seq<char>)>::empty()),
        ("み過ぎる"@, "む"@, subconditions_added(Conditions::v1), subconditions_added(Conditions::v5), Seq::<(Seq<char>, Seq<char>)>::empty()),
        ("り過ぎる"@, "る"@, subconditions_added(Conditions::v1), subconditions_added(Conditions::v5), Seq::<(Seq<char>, Seq<char>)>::empty()),
        ("じ過ぎる"@, "ずる"@, subconditions_added(Conditions::v1), subconditions_added(Conditions::vz), Seq::<(Seq<char>, Seq<char>)>::empty()),
        ("し過ぎる"@, "する"@, subconditions_added(Conditions::v1), subconditions_added(Conditions::vs), Seq::<(Seq<char>, Seq<char>)>::empty()),
        ("為過ぎる"@, "為る"@, subconditions_added(Conditions::v1), subconditions_added(Conditions::vs), Seq::<(Seq<char>, Seq<char>)>::empty()),
        ("き過ぎる"@, "くる"@, subconditions_added(Conditions::v1), subconditions_added(Conditions::vk), Seq::<(Seq<char>, Seq<char>)>::empty()),
        ("来過ぎる"@, "来る"@, subconditions_added(Conditions::v1), subconditions_added(Conditions::vk), Seq::<(Seq<char>, Seq<char>)>::empty()),
        ("來過ぎる"@, "來る"@, subconditions_added(Conditions::v1), subconditions_added(Conditions::vk), Seq::<(Seq<char>, Seq<char>)>::empty()),
    ]
}

#[verifier::rlimit(60)]
proof fn lemma_rules_9_ok()
    ensures
        forall|i: int| 0 <= i < rules_9().len() ==> #[trigger] rule_view_ok(rules_9()[i]),
        forall|i: int| 0 <= i < rules_9().len() ==> #[trigger] keeps_godan_rows(rules_9()[i]),
{
    reveal(rules_9);
    reveal_strlit("過ぎる");
    lemma_utf8_size_bound("過ぎる"@);
    reveal_strlit("い");
    lemma_utf8_size_bound("い"@);
    reveal_strlit("る");
    lemma_utf8_size_bound("る"@);
    reveal_strlit("い過ぎる");
    lemma_utf8_size_bound("い過ぎる"@);
    reveal_strlit("う");
    lemma_utf8_size_bound("う"@);
    reveal_strlit("き過ぎる");
    lemma_utf8_size_bound("き過ぎる"@);
    reveal_strlit("く");
    lemma_utf8_size_bound("く"@);
    reveal_strlit("ぎ過ぎる");
    lemma_utf8_size_bound("ぎ過ぎる"@);
    reveal_strlit("ぐ");
    lemma_utf8_size_bound("ぐ"@);
    reveal_strlit("し過ぎる");
    lemma_utf8_size_bound("し過ぎる"@);
    reveal_strlit("す");
    lemma_utf8_size_bound("す"@);
    reveal_strlit("ち過ぎる");
    lemma_utf8_size_bound("ち過ぎる"@);
    reveal_strlit("つ");
    lemma_utf8_size_bound("つ"@);
    reveal_strlit("に過ぎる");
    lemma_utf8_size_bound("に過ぎる"@);
    reveal_strlit("ぬ");
    lemma_utf8_size_bound("ぬ"@);
    reveal_strlit("び過ぎる");
    lemma_utf8_size_bound("び過ぎる"@);
    reveal_strlit("ぶ");
    lemma_utf8_size_bound("ぶ"@);
    reveal_strlit("み過ぎる");
    lemma_utf8_size_bound("み過ぎる"@);
    reveal_strlit("む");
    lemma_utf8_size_bound("む"@);
    reveal_strlit("り過ぎる");
    lemma_utf8_size_bound("り過ぎる"@);
    reveal_strlit("じ過ぎる");
    lemma_utf8_size_bound("じ過ぎる"@);
    reveal_strlit("ずる");
    lemma_utf8_size_bound("ずる"@);
    reveal_strlit("する");
    lemma_utf8_size_bound("する"@);
    reveal_strlit("為過ぎる");
    lemma_utf8_size_bound("為過ぎる"@);
    reveal_strlit("為る");
    lemma_utf8_size_bound("為る"@);
    reveal_strlit("くる");
    lemma_utf8_size_bound("くる"@);
    reveal_strlit("来過ぎる");
    lemma_utf8_size_bound("来過ぎる"@);
    reveal_strlit("来る");
    lemma_utf8_size_bound("来る"@);
    reveal_strlit("來過ぎる");
    lemma_utf8_size_bound("來過ぎる"@);
    reveal_strlit("來る");
    lemma_utf8_size_bound("來る"@);
}

fn transform_9() -> (r: Transform)
    ensures
        rules_view(r.rules@) == rules_9(),
{
    let mut rules: Vec<Inflection> = Vec::new();
    rules.push(suffix_inflection("過ぎる", "い", Conditions(Conditions::v1).with_subconditions(), Conditions(Conditions::adj_i).with_subconditions()));
    rules.push(suffix_inflection("過ぎる", "る", Conditions(Conditions::v1).with_subconditions(), Conditions(Conditions::v1).with_subconditions()));
    rules.push(suffix_inflection("い過ぎる", "う", Conditions(Conditions::v1).with_subconditions(), Conditions(Conditions::v5).with_subconditions()));
    rules.push(suffix_inflection("き過ぎる", "く", Conditions(Conditions::v1).with_subconditions(), Conditions(Conditions::v5).with_subconditions()));
    rules.push(suffix_inflection("ぎ過ぎる", "ぐ", Conditions(Conditions::v1).with_subconditions(), Conditions(Conditions::v5).with_subconditions()));
    rules.push(suffix_inflection("し過ぎる", "す", Conditions(Conditions::v1).with_subconditions(), Conditions(Conditions::v5).with_subconditions()));
    rules.push(suffix_inflection("ち過ぎる", "つ", Conditions(Conditions::v1).with_subconditions(), Conditions(Conditions::v5).with_subconditions()));
    rules.push(suffix_inflection("に過ぎる", "ぬ", Conditions(Conditions::v1).with_subconditions(), Conditions(Conditions::v5).with_subconditions()));
    rules.push(suffix_inflection("び過ぎる", "ぶ", Conditions(Conditions::v1).with_subconditions(), Conditions(Conditions::v5).with_subconditions()));
    rules.push(suffix_inflection("み過ぎる", "む", Conditions(Conditions::v1).with_subconditions(), Conditions(Conditions::v5).with_subconditions()));
    rules.push(suffix_inflection("り過ぎる", "る", Conditions(Conditions::v1).with_subconditions(), Conditions(Conditions::v5).with_subconditions()));
    rules.push(suffix_inflection("じ過ぎる", "ずる", Conditions(Conditions::v1).with_subconditions(), Conditions(Conditions::vz).with_subconditions()));
    rules.push(suffix_inflection("し過ぎる", "する", Conditions(Conditions::v1).with_subconditions(), Conditions(Conditions::vs).with_subconditions()));
    rules.push(suffix_inflection("為過ぎる", "為る", Conditions(Conditions::v1).with_subconditions(), Conditions(Conditions::vs).with_subconditions()));
    rules.push(suffix_inflection("き過ぎる", "くる", Conditions(Conditions::v1).with_subconditions(), Conditions(Conditions::vk).with_subconditions()));
    rules.push(suffix_inflection("来過ぎる", "来る", Conditions(Conditions::v1).with_subconditions(), Conditions(Conditions::vk).with_subconditions()));
    rules.push(suffix_inflection("來過ぎる", "來る", Conditions(Conditions::v1).with_subconditions(), Conditions(Conditions::vk).with_subconditions()));
    proof {
        reveal(rules_9);
        assert(rules_view(rules@) =~~= rules_9());
    }
    Transform { name: "-過ぎる", description: "Shows something \\\"is too...\\\" or someone is doing something \\\"too much\\\".\n\nUsage: Attach 過ぎる to the continuative form (連用形) of verbs, or to the stem of adjectives.\n", rules }
}

/// The rules of `-たい`: ending, replacement, conditions in and out,
/// and endings rewritten first.
#[verifier::opaque]
pub open spec fn rules_10() -> Seq<RuleView> {
    seq![
        ("たい"@, "る"@, subconditions_added(Conditions::adj_i), subconditions_added(Conditions::v1), Seq::<(Seq<char>, Seq<char>)>::empty()),
        ("いたい"@, "う"@, subconditions_added(Conditions::adj_i), subconditions_added(Conditions::v5), Seq::<(Seq<char>, Seq<char>)>::empty()),
        ("きたい"@, "く"@, subconditions_added(Conditions::adj_i), subconditions_added(Conditions::v5), Seq::<(Seq<char>, Seq<char>)>::empty()),
        ("ぎたい"@, "ぐ"@, subconditions_added(Conditions::adj_i), subconditions_added(Conditions::v5), Seq::<(Seq<char>, Seq<char>)>::empty()),
        ("したい"@, "す"@, subconditions_added(Conditions::adj_i), subconditions_added(Conditions::v5), Seq::<(Seq<char>, Seq<char>)>::empty()),
        ("ちたい"@, "つ"@, subconditions_added(Conditions::adj_i), subconditions_added(Conditions::v5), Seq::<(Seq<char>, Seq<char>)>::empty()),
        ("にたい"@, "ぬ"@, subconditions_added(Conditions::adj_i), subconditions_added(Conditions::v5), Seq::<(Seq<char>, Seq<char>)>::empty()),
        ("びたい"@, "ぶ"@, subconditions_added(Conditions::adj_i), subconditions_added(Conditions::v5), Seq::<(Seq<char>, Seq<char>)>::empty()),
        ("みたい"@, "む"@, subconditions_added(Conditions::adj_i), subconditions_added(Conditions::v5), Seq::<(Seq<char>, Seq<char>)>::empty()),
        ("りたい"@, "る"@, subconditions_added(Conditions::adj_i), subconditions_added(Conditions::v5), Seq::<(Seq<char>, Seq<char>)>::empty()),
        ("じたい"@, "ずる"@, subconditions_added(Conditions::adj_i), subconditions_added(Conditions::vz), Seq::<(Seq<char>, Seq<char>)>::empty()),
        ("したい"@, "する"@, subconditions_added(Conditions::adj_i), subconditions_added(Conditions::vs), Seq::<(Seq<char>, Seq<char>)>::empty()),
        ("為たい"@, "為る"@, subconditions_added(Conditions::adj_i), subconditions_added(Conditions::vs), Seq::<(Seq<char>, Seq<char>)>::empty()),
        ("きたい"@, "くる"@, subconditions_added(Conditions::adj_i), subconditions_added(Conditions::vk), Seq::<(Seq<char>, Seq<char>)>::empty()),
        ("来たい"@, "来る"@, subconditions_added(Conditions::adj_i), subconditions_added(Conditions::vk), Seq::<(Seq<char>, Seq<char>)>::empty()),
        ("來たい"@, "來る"@, subconditions_added(Conditions::adj_i), subconditions_added(Conditions::vk), Seq::<(Seq<char>, Seq<char>)>::empty()),
    ]
}

#[verifier::rlimit(60)]
proof fn lemma_rules_10_ok()
    ensures
        forall|i: int| 0 <= i < rules_10().len() ==> #[trigger] rule_view_ok(rules_10()[i]),
        forall|i: int| 0 <= i < rules_10().len() ==> #[trigger] keeps_godan_rows(rules_10()[i]),
{
    reveal(rules_10);
    reveal_strlit("たい");
    lemma_utf8_size_bound("たい"@);
    reveal_strlit("る");
    lemma_utf8_size_bound("る"@);
    reveal_strlit("いたい");
    lemma_utf8_size_bound("いたい"@);
    reveal_strlit("う");
    lemma_utf8_size_bound("う"@);
    reveal_strlit("きたい");
    lemma_utf8_size_bound("きたい"@);
    reveal_strlit("く");
    lemma_utf8_size_bound("く"@);
    reveal_strlit("ぎたい");
    lemma_utf8_size_bound("ぎたい"@);
    reveal_strlit("ぐ");
    lemma_utf8_size_bound("ぐ"@);
    reveal_strlit("したい");
    lemma_utf8_size_bound("したい"@);
    reveal_strlit("す");
    lemma_utf8_size_bound("す"@);
    reveal_strlit("ちたい");
    lemma_utf8_size_bound("ちたい"@);
    reveal_strlit("つ");
    lemma_utf8_size_bound("つ"@);
    reveal_strlit("にたい");
    lemma_utf8_size_bound("にたい"@);
    reveal_strlit("ぬ");
    lemma_utf8_size_bound("ぬ"@);
    reveal_strlit("びたい");
    lemma_utf8_size_bound("びたい"@);
    reveal_strlit("ぶ");
    lemma_utf8_size_bound("ぶ"@);
    reveal_strlit("みたい");
    lemma_utf8_size_bound("みたい"@);
    reveal_strlit("む");
    lemma_utf8_size_bound("む"@);
    reveal_strlit("りたい");
    lemma_utf8_size_bound("りたい"@);
    reveal_strlit("じたい");
    lemma_utf8_size_bound("じたい"@);
    reveal_strlit("ずる");
    lemma_utf8_size_bound("ずる"@);
    reveal_strlit("する");
    lemma_utf8_size_bound("する"@);
    reveal_strlit("為たい");
    lemma_utf8_size_bound("為たい"@);
    reveal_strlit("為る");
    lemma_utf8_size_bound("為る"@);
    reveal_strlit("くる");
    lemma_utf8_size_bound("くる"@);
    reveal_strlit("来たい");
    lemma_utf8_size_bound("来たい"@);
    reveal_strlit("来る");
    lemma_utf8_size_bound("来る"@);
    reveal_strlit("來たい");
    lemma_utf8_size_bound("來たい"@);
    reveal_strlit("來る");
    lemma_utf8_size_bound("來る"@);
}

fn transform_10() -> (r: Transform)
    ensures
        rules_view(r.rules@) == rules_10(),
{
    let mut rules: Vec<Inflection> = Vec::new();
    rules.push(suffix_inflection("たい", "る", Conditions(Conditions::adj_i).with_subconditions(), Conditions(Conditions::v1).with_subconditions()));
    rules.push(suffix_inflection("いたい", "う", Conditions(Conditions::adj_i).with_subconditions(), Conditions(Conditions::v5).with_subconditions()));
    rules.push(suffix_inflection("きたい", "く", Conditions(Conditions::adj_i).with_subconditions(), Conditions(Conditions::v5).with_subconditions()));
    rules.push(suffix_inflection("ぎたい", "ぐ", Conditions(Conditions::adj_i).with_subconditions(), Conditions(Conditions::v5).with_subconditions()));
    rules.push(suffix_inflection("したい", "す", Conditions(Conditions::adj_i).with_subconditions(), Conditions(Conditions::v5).with_subconditions()));
    rules.push(suffix_inflection("ちたい", "つ", Conditions(Conditions::adj_i).with_subconditions(), Conditions(Conditions::v5).with_subconditions()));
    rules.push(suffix_inflection("にたい", "ぬ", Conditions(Conditions::adj_i).with_subconditions(), Conditions(Conditions::v5).with_subconditions()));
    rules.push(suffix_inflection("びたい", "ぶ", Conditions(Conditions::adj_i).with_subconditions(), Conditions(Conditions::v5).with_subconditions()));
    rules.push(suffix_inflection("みたい", "む", Conditions(Conditions::adj_i).with_subconditions(), Conditions(Conditions::v5).with_subconditions()));
    rules.push(suffix_inflection("りたい", "る", Conditions(Conditions::adj_i).with_subconditions(), Conditions(Conditions::v5).with_subconditions()));
    rules.push(suffix_inflection("じたい", "ずる", Conditions(Conditions::adj_i).with_subconditions(), Conditions(Conditions::vz).with_subconditions()));
    rules.push(suffix_inflection("したい", "する", Conditions(Conditions::adj_i).with_subconditions(), Conditions(Conditions::vs).with_subconditions()));
    rules.push(suffix_inflection("為たい", "為る", Conditions(Conditions::adj_i).with_subconditions(), Conditions(Conditions::vs).with_subconditions()));
    rules.push(suffix_inflection("きたい", "くる", Conditions(Conditions::adj_i).with_subconditions(), Conditions(Conditions::vk).with_subconditions()));
    rules.push(suffix_inflection("来たい", "来る", Conditions(Conditions::adj_i).with_subconditions(), Conditions(Conditions::vk).with_subconditions()));
    rules.push(suffix_inflection("來たい", "來る", Conditions(Conditions::adj_i).with_subconditions(), Conditions(Conditions::vk).with_subconditions()));
    proof {
        reveal(rules_10);
        assert(rules_view(rules@) =~~= rules_10());
    }
    Transform { name: "-たい", description: "1. Expresses the feeling of desire or hope.\n2. Used in ...たいと思います, an indirect way of saying what the speaker intends to do.\n\nUsage: Attach たい to the continuative form (連用形) of verbs. たい itself conjugates as i-adjective.\n", rules }
}

/// The rules of `-たら`: ending, replacement, conditions in and out,
/// and endings rewritten first.
#[verifier::opaque]
pub open spec fn rules_11() -> Seq<RuleView> {
    seq![
        ("かったら"@, "い"@, 0u32, subconditions_added(Conditions::adj_i), Seq::<(Seq<char>, Seq<char>)>::empty()),
        ("たら"@, "る"@, 0u32, subconditions_added(Conditions::v1), Seq::<(Seq<char>, Seq<char>)>::empty()),
        ("いたら"@, "く"@, 0u32, subconditions_added(Conditions::v5), Seq::<(Seq<char>, Seq<char>)>::empty()),
        ("いだら"@, "ぐ"@, 0u32, subconditions_added(Conditions::v5), Seq::<(Seq<char>, Seq<char>)>::empty()),
        ("したら"@, "す"@, 0u32, subconditions_added(Conditions::v5), Seq::<(Seq<char>, Seq<char>)>::empty()),
        ("ったら"@, "う"@, 0u32, subconditions_added(Conditions::v5), Seq::<(Seq<char>, Seq<char>)>::empty()),
        ("ったら"@, "つ"@, 0u32, subconditions_added(Conditions::v5), Seq::<(Seq<char>, Seq<char>)>::empty()),
        ("ったら"@, "る"@, 0u32, subconditions_added(Conditions::v5), Seq::<(Seq<char>, Seq<char>)>::empty()),
        ("んだら"@, "ぬ"@, 0u32, subconditions_added(Conditions::v5), Seq::<(Seq<char>, Seq<char>)>::empty()),
        ("んだら"@, "ぶ"@, 0u32, subconditions_added(Conditions::v5), Seq::<(Seq<char>, Seq<char>)>::empty()),
        ("んだら"@, "む"@, 0u32, subconditions_added(Conditions::v5), Seq::<(Seq<char>, Seq<char>)>::empty()),
        ("じたら"@, "ずる"@, 0u32, subconditions_added(Conditions::vz), Seq::<(Seq<char>, Seq<char>)>::empty()),
        ("したら"@, "する"@, 0u32, subconditions_added(Conditions::vs), Seq::<(Seq<char>, Seq<char>)>::empty()),
        ("為たら"@, "為る"@, 0u32, subconditions_added(Conditions::vs), Seq::<(Seq<char>, Seq<char>)>::empty()),
        ("きたら"@, "くる"@, 0u32, subconditions_added(Conditions::vk), Seq::<(Seq<char>, Seq<char>)>::empty()),
        ("来たら"@, "来る"@, 0u32, subconditions_added(Conditions::vk), Seq::<(Seq<char>, Seq<char>)>::empty()),
        ("來たら"@, "來る"@, 0u32, subconditions_added(Conditions::vk), Seq::<(Seq<char>, Seq<char>)>::empty()),
        ("ましたら"@, "ます"@, 0u32, subconditions_added(Conditions::masu), Seq::<(Seq<char>, Seq<char>)>::empty()),
        ("いったら"@, "いく"@, 0u32, subconditions_added(Conditions::v5), Seq::<(Seq<char>, Seq<char>)>::empty()),
        ("行ったら"@, "行く"@, 0u32, subconditions_added(Conditions::v5), Seq::<(Seq<char>, Seq<char>)>::empty()),
        ("逝ったら"@, "逝く"@, 0u32, subconditions_added(Conditions::v5), Seq::<(Seq<char>, Seq<char>)>::empty()),
        ("往ったら"@, "往く"@, 0u32, subconditions_added(Conditions::v5), Seq::<(Seq<char>, Seq<char>)>::empty()),
        ("こうたら"@, "こう"@, 0u32, subconditions_added(Conditions::v5), Seq::<(Seq<char>, Seq<char>)>::empty()),
        ("とうたら"@, "とう"@, 0u32, subconditions_added(Conditions::v5), Seq::<(Seq<char>, Seq<char>)>::empty()),
        ("請うたら"@, "請う"@, 0u32, subconditions_added(Conditions::v5), Seq::<(Seq<char>, Seq<char>)>::empty()),
        ("乞うたら"@, "乞う"@, 0u32, subconditions_added(Conditions::v5), Seq::<(Seq<char>, Seq<char>)>::empty()),
        ("恋うたら"@, "恋う"@, 0u32, subconditions_added(Conditions::v5), Seq::<(Seq<char>, Seq<char>)>::empty()),
        ("問うたら"@, "問う"@, 0u32, subconditions_added(Conditions::v5), Seq::<(Seq<char>, Seq<char>)>::empty()),
        ("訪うたら"@, "訪う"@, 0u32, subconditions_added(Conditions::v5), Seq::<(Seq<char>, Seq<char>)>::empty()),
        ("宣うたら"@, "宣う"@, 0u32, subconditions_added(Conditions::v5), Seq::<(Seq<char>, Seq<char>)>::empty()),
        ("曰うたら"@, "曰う"@, 0u32, subconditions_added(Conditions::v5), Seq::<(Seq<char>, Seq<char>)>::empty()),
        ("給うたら"@, "給う"@, 0u32, subconditions_added(Conditions::v5), Seq::<(Seq<char>, Seq<char>)>::empty()),
        ("賜うたら"@, "賜う"@, 0u32, subconditions_added(Conditions::v5), Seq::<(Seq<char>, Seq<char>)>::empty()),
        ("揺蕩うたら"@, "揺蕩う"@, 0u32, subconditions_added(Conditions::v5), Seq::<(Seq<char>, Seq<char>)>::empty()),
        ("のたもうたら"@, "のたまう"@, 0u32, subconditions_added(Conditions::v5), Seq::<(Seq<char>, Seq<char>)>::empty()),
        ("たもうたら"@, "たまう"@, 0u32, subconditions_added(Conditions::v5), Seq::<(Seq<char>, Seq<char>)>::empty()),
        ("たゆとうたら"@, "たゆたう"@, 0u32, subconditions_added(Conditions::v5), Seq::<(Seq<char>, Seq<char>)>::empty()),
    ]
}

#[verifier::rlimit(60)]
proof fn lemma_rules_11_ok()
    ensures
        forall|i: int| 0 <= i < rules_11().len() ==> #[trigger] rule_view_ok(rules_11()[i]),
        forall|i: int| 0 <= i < rules_11().len() ==> #[trigger] keeps_godan_rows(rules_11()[i]),
{
    reveal(rules_11);
    reveal_strlit("かったら");
    lemma_utf8_size_bound("かったら"@);
    reveal_strlit("い");
    lemma_utf8_size_bound("い"@);
    reveal_strlit("たら");
    lemma_utf8_size_bound("たら"@);
    reveal_strlit("る");
    lemma_utf8_size_bound("る"@);
    reveal_strlit("いたら");
    lemma_utf8_size_bound("いたら"@);
    reveal_strlit("く");
    lemma_utf8_size_bound("く"@);
    reveal_strlit("いだら");
    lemma_utf8_size_bound("いだら"@);
    reveal_strlit("ぐ");
    lemma_utf8_size_bound("ぐ"@);
    reveal_strlit("したら");
    lemma_utf8_size_bound("したら"@);
    reveal_strlit("す");
    lemma_utf8_size_bound("す"@);
    reveal_strlit("ったら");
    lemma_utf8_size_bound("ったら"@);
    reveal_strlit("う");
    lemma_utf8_size_bound("う"@);
    reveal_strlit("つ");
    lemma_utf8_size_bound("つ"@);
    reveal_strlit("んだら");
    lemma_utf8_size_bound("んだら"@);
    reveal_strlit("ぬ");
    lemma_utf8_size_bound("ぬ"@);
    reveal_strlit("ぶ");
    lemma_utf8_size_bound("ぶ"@);
    reveal_strlit("む");
    lemma_utf8_size_bound("む"@);
    reveal_strlit("じたら");
    lemma_utf8_size_bound("じたら"@);
    reveal_strlit("ずる");
    lemma_utf8_size_bound("ずる"@);
    reveal_strlit("する");
    lemma_utf8_size_bound("する"@);
    reveal_strlit("為たら");
    lemma_utf8_size_bound("為たら"@);
    reveal_strlit("為る");
    lemma_utf8_size_bound("為る"@);
    reveal_strlit("きたら");
    lemma_utf8_size_bound("きたら"@);
    reveal_strlit("くる");
    lemma_utf8_size_bound("くる"@);
    reveal_strlit("来たら");
    lemma_utf8_size_bound("来たら"@);
    reveal_strlit("来る");
    lemma_utf8_size_bound("来る"@);
    reveal_strlit("來たら");
    lemma_utf8_size_bound("來たら"@);
    reveal_strlit("來る");
    lemma_utf8_size_bound("來る"@);
    reveal_strlit("ましたら");
    lemma_utf8_size_bound("ましたら"@);
    reveal_strlit("ます");
    lemma_utf8_size_bound("ます"@);
    reveal_strlit("いったら");
    lemma_utf8_size_bound("いったら"@);
    reveal_strlit("いく");
    lemma_utf8_size_bound("いく"@);
    reveal_strlit("行ったら");
    lemma_utf8_size_bound("行ったら"@);
    reveal_strlit("行く");
    lemma_utf8_size_bound("行く"@);
    reveal_strlit("逝ったら");
    lemma_utf8_size_bound("逝ったら"@);
    reveal_strlit("逝く");
    lemma_utf8_size_bound("逝く"@);
    reveal_strlit("往ったら");
    lemma_utf8_size_bound("往ったら"@);
    reveal_strlit("往く");
    lemma_utf8_size_bound("往く"@);
    reveal_strlit("こうたら");
    lemma_utf8_size_bound("こうたら"@);
    reveal_strlit("こう");
    lemma_utf8_size_bound("こう"@);
    reveal_strlit("とうたら");
    lemma_utf8_size_bound("とうたら"@);
    reveal_strlit("とう");
    lemma_utf8_size_bound("とう"@);
    reveal_strlit("請うたら");
    lemma_utf8_size_bound("請うたら"@);
    reveal_strlit("請う");
    lemma_utf8_size_bound("請う"@);
    reveal_strlit("乞うたら");
    lemma_utf8_size_bound("乞うたら"@);
    reveal_strlit("乞う");
    lemma_utf8_size_bound("乞う"@);
    reveal_strlit("恋うたら");
    lemma_utf8_size_bound("恋うたら"@);
    reveal_strlit("恋う");
    lemma_utf8_size_bound("恋う"@);
    reveal_strlit("問うたら");
    lemma_utf8_size_bound("問うたら"@);
    reveal_strlit("問う");
    lemma_utf8_size_bound("問う"@);
    reveal_strlit("訪うたら");
    lemma_utf8_size_bound("訪うたら"@);
    reveal_strlit("訪う");
    lemma_utf8_size_bound("訪う"@);
    reveal_strlit("宣うたら");
    lemma_utf8_size_bound("宣うたら"@);
    reveal_strlit("宣う");
    lemma_utf8_size_bound("宣う"@);
    reveal_strlit("曰うたら");
    lemma_utf8_size_bound("曰うたら"@);
    reveal_strlit("曰う");
    lemma_utf8_size_bound("曰う"@);
    reveal_strlit("給うたら");
    lemma_utf8_size_bound("給うたら"@);
    reveal_strlit("給う");
    lemma_utf8_size_bound("給う"@);
    reveal_strlit("賜うたら");
    lemma_utf8_size_bound("賜うたら"@);
    reveal_strlit("賜う");
    lemma_utf8_size_bound("賜う"@);
    reveal_strlit("揺蕩うたら");
    lemma_utf8_size_bound("揺蕩うたら"@);
    reveal_strlit("揺蕩う");
    lemma_utf8_size_bound("揺蕩う"@);
    reveal_strlit("のたもうたら");
    lemma_utf8_size_bound("のたもうたら"@);
    reveal_strlit("のたまう");
    lemma_utf8_size_bound("のたまう"@);
    reveal_strlit("たもうたら");
    lemma_utf8_size_bound("たもうたら"@);
    reveal_strlit("たまう");
    lemma_utf8_size_bound("たまう"@);
    reveal_strlit("たゆとうたら");
    lemma_utf8_size_bound("たゆとうたら"@);
    reveal_strlit("たゆたう");
    lemma_utf8_size_bound("たゆたう"@);
}

fn transform_11() -> (r: Transform)
    ensures
        rules_view(r.rules@) == rules_11(),
{
    let mut rules: Vec<Inflection> = Vec::new();
    rules.push(suffix_inflection("かったら", "い", 0, Conditions(Conditions::adj_i).with_subconditions()));
    rules.push(suffix_inflection("たら", "る", 0, Conditions(Conditions::v1).with_subconditions()));
    rules.push(suffix_inflection("いたら", "く", 0, Conditions(Conditions::v5).with_subconditions()));
    rules.push(suffix_inflection("いだら", "ぐ", 0, Conditions(Conditions::v5).with_subconditions()));
    rules.push(suffix_inflection("したら", "す", 0, Conditions(Conditions::v5).with_subconditions()));
    rules.push(suffix_inflection("ったら", "う", 0, Conditions(Conditions::v5).with_subconditions()));
    rules.push(suffix_inflection("ったら", "つ", 0, Conditions(Conditions::v5).with_subconditions()));
    rules.push(suffix_inflection("ったら", "る", 0, Conditions(Conditions::v5).with_subconditions()));
    rules.push(suffix_inflection("んだら", "ぬ", 0, Conditions(Conditions::v5).with_subconditions()));
    rules.push(suffix_inflection("んだら", "ぶ", 0, Conditions(Conditions::v5).with_subconditions()));
    rules.push(suffix_inflection("んだら", "む", 0, Conditions(Conditions::v5).with_subconditions()));
    rules.push(suffix_inflection("じたら", "ずる", 0, Conditions(Conditions::vz).with_subconditions()));
    rules.push(suffix_inflection("したら", "する", 0, Conditions(Conditions::vs).with_subconditions()));
    rules.push(suffix_inflection("為たら", "為る", 0, Conditions(Conditions::vs).with_subconditions()));
    rules.push(suffix_inflection("きたら", "くる", 0, Conditions(Conditions::vk).with_subconditions()));
    rules.push(suffix_inflection("来たら", "来る", 0, Conditions(Conditions::vk).with_subconditions()));
    rules.push(suffix_inflection("來たら", "來る", 0, Conditions(Conditions::vk).with_subconditions()));
    rules.push(suffix_inflection("ましたら", "ます", 0, Conditions(Conditions::masu).with_subconditions()));
    rules.push(suffix_inflection("いったら", "いく", 0, Conditions(Conditions::v5).with_subconditions()));
    rules.push(suffix_inflection("行ったら", "行く", 0, Conditions(Conditions::v5).with_subconditions()));
    rules.push(suffix_inflection("逝ったら", "逝く", 0, Conditions(Conditions::v5).with_subconditions()));
    rules.push(suffix_inflection("往ったら", "往く", 0, Conditions(Conditions::v5).with_subconditions()));
    rules.push(suffix_inflection("こうたら", "こう", 0, Conditions(Conditions::v5).with_subconditions()));
    rules.push(suffix_inflection("とうたら", "とう", 0, Conditions(Conditions::v5).with_subconditions()));
    rules.push(suffix_inflection("請うたら", "請う", 0, Conditions(Conditions::v5).with_subconditions()));
    rules.push(suffix_inflection("乞うたら", "乞う", 0, Conditions(Conditions::v5).with_subconditions()));
    rules.push(suffix_inflection("恋うたら", "恋う", 0, Conditions(Conditions::v5).with_subconditions()));
    rules.push(suffix_inflection("問うたら", "問う", 0, Conditions(Conditions::v5).with_subconditions()));
    rules.push(suffix_inflection("訪うたら", "訪う", 0, Conditions(Conditions::v5).with_subconditions()));
    rules.push(suffix_inflection("宣うたら", "宣う", 0, Conditions(Conditions::v5).with_subconditions()));
    rules.push(suffix_inflection("曰うたら", "曰う", 0, Conditions(Conditions::v5).with_subconditions()));
    rules.push(suffix_inflection("給うたら", "給う", 0, Conditions(Conditions::v5).with_subconditions()));
    rules.push(suffix_inflection("賜うたら", "賜う", 0, Conditions(Conditions::v5).with_subconditions()));
    rules.push(suffix_inflection("揺蕩うたら", "揺蕩う", 0, Conditions(Conditions::v5).with_subconditions()));
    rules.push(suffix_inflection("のたもうたら", "のたまう", 0, Conditions(Conditions::v5).with_subconditions()));
    rules.push(suffix_inflection("たもうたら", "たまう", 0, Conditions(Conditions::v5).with_subconditions()));
    rules.push(suffix_inflection("たゆとうたら", "たゆたう", 0, Conditions(Conditions::v5).with_subconditions()));
    proof {
        reveal(rules_11);
        assert(rules_view(rules@) =~~= rules_11());
    }
    Transform { name: "-たら", description: "1. Denotes the latter stated event is a continuation of the previous stated event.\n2. Assumes that a matter has been completed or concluded.\n\nUsage: Attach たら to the continuative form (連用形) of verbs after euphonic change form, かったら to the stem of i-adjectives.\n", rules }
}

/// The rules of `-たり`: ending, replacement, conditions in and out,
/// and endings rewritten first.
#[verifier::opaque]
pub open spec fn rules_12() -> Seq<RuleView> {
    seq![
        ("かったり"@, "い"@, 0u32, subconditions_added(Conditions::adj_i), Seq::<(Seq<char>, Seq<char>)>::empty()),
        ("たり"@, "る"@, 0u32, subconditions_added(Conditions::v1), Seq::<(Seq<char>, Seq<char>)>::empty()),
        ("いたり"@, "く"@, 0u32, subconditions_added(Conditions::v5), Seq::<(Seq<char>, Seq<char>)>::empty()),
        ("いだり"@, "ぐ"@, 0u32, subconditions_added(Conditions::v5), Seq::<(Seq<char>, Seq<char>)>::empty()),
        ("したり"@, "す"@, 0u32, subconditions_added(Conditions::v5), Seq::<(Seq<char>, Seq<char>)>::empty()),
        ("ったり"@, "う"@, 0u32, subconditions_added(Conditions::v5), Seq::<(Seq<char>, Seq<char>)>::empty()),
        ("ったり"@, "つ"@, 0u32, subconditions_added(Conditions::v5), Seq::<(Seq<char>, Seq<char>)>::empty()),
        ("ったり"@, "る"@, 0u32, subconditions_added(Conditions::v5), Seq::<(Seq<char>, Seq<char>)>::empty()),
        ("んだり"@, "ぬ"@, 0u32, subconditions_added(Conditions::v5), Seq::<(Seq<char>, Seq<char>)>::empty()),
        ("んだり"@, "ぶ"@, 0u32, subconditions_added(Conditions::v5), Seq::<(Seq<char>, Seq<char>)>::empty()),
        ("んだり"@, "む"@, 0u32, subconditions_added(Conditions::v5), Seq::<(Seq<char>, Seq<char>)>::empty()),
        ("じたり"@, "ずる"@, 0u32, subconditions_added(Conditions::vz), Seq::<(Seq<char>, Seq<char>)>::empty()),
        ("したり"@, "する"@, 0u32, subconditions_added(Conditions::vs), Seq::<(Seq<char>, Seq<char>)>::empty()),
        ("為たり"@, "為る"@, 0u32, subconditions_added(Conditions::vs), Seq::<(Seq<char>, Seq<char>)>::empty()),
        ("きたり"@, "くる"@, 0u32, subconditions_added(Conditions::vk), Seq::<(Seq<char>, Seq<char>)>::empty()),
        ("来たり"@, "来る"@, 0u32, subconditions_added(Conditions::vk), Seq::<(Seq<char>, Seq<char>)>::empty()),
        ("來たり"@, "來る"@, 0u32, subconditions_added(Conditions::vk), Seq::<(Seq<char>, Seq<char>)>::empty()),
        ("いったり"@, "いく"@, 0u32, subconditions_added(Conditions::v5), Seq::<(Seq<char>, Seq<char>)>::empty()),
        ("行ったり"@, "行く"@, 0u32, subconditions_added(Conditions::v5), Seq::<(Seq<char>, Seq<char>)>::empty()),
        ("逝ったり"@, "逝く"@, 0u32, subconditions_added(Conditions::v5), Seq::<(Seq<char>, Seq<char>)>::empty()),
        ("往ったり"@, "往く"@, 0u32, subconditions_added(Conditions::v5), Seq::<(Seq<char>, Seq<char>)>::empty()),
        ("こうたり"@, "こう"@, 0u32, subconditions_added(Conditions::v5), Seq::<(Seq<char>, Seq<char>)>::empty()),
        ("とうたり"@, "とう"@, 0u32, subconditions_added(Conditions::v5), Seq::<(Seq<char>, Seq<char>)>::empty()),
        ("請うたり"@, "請う"@, 0u32, subconditions_added(Conditions::v5), Seq::<(Seq<char>, Seq<char>)>::empty()),
        ("乞うたり"@, "乞う"@, 0u32, subconditions_added(Conditions::v5), Seq::<(Seq<char>, Seq<char>)>::empty()),
        ("恋うたり"@, "恋う"@, 0u32, subconditions_added(Conditions::v5), Seq::<(Seq<char>, Seq<char>)>::empty()),
        ("問うたり"@, "問う"@, 0u32, subconditions_added(Conditions::v5), Seq::<(Seq<char>, Seq<char>)>::empty()),
        ("訪うたり"@, "訪う"@, 0u32, subconditions_added(Conditions::v5), Seq::<(Seq<char>, Seq<char>)>::empty()),
        ("宣うたり"@, "宣う"@, 0u32, subconditions_added(Conditions::v5), Seq::<(Seq<char>, Seq<char>)>::empty()),
        ("曰うたり"@, "曰う"@, 0u32, subconditions_added(Conditions::v5), Seq::<(Seq<char>, Seq<char>)>::empty()),
        ("給うたり"@, "給う"@, 0u32, subconditions_added(Conditions::v5), Seq::<(Seq<char>, Seq<char>)>::empty()),
        ("賜うたり"@, "賜う"@, 0u32, subconditions_added(Conditions::v5), Seq::<(Seq<char>, Seq<char>)>::empty()),
        ("揺蕩うたり"@, "揺蕩う"@, 0u32, subconditions_added(Conditions::v5), Seq::<(Seq<char>, Seq<char>)>::empty()),
        ("のたもうたり"@, "のたまう"@, 0u32, subconditions_added(Conditions::v5), Seq::<(Seq<char>, Seq<char>)>::empty()),
        ("たもうたり"@, "たまう"@, 0u32, subconditions_added(Conditions::v5), Seq::<(Seq<char>, Seq<char>)>::empty()),
        ("たゆとうたり"@, "たゆたう"@, 0u32, subconditions_added(Conditions::v5), Seq::<(Seq<char>, Seq<char>)>::empty()),
    ]
}

#[verifier::rlimit(60)]
proof fn lemma_rules_12_ok()
    ensures
        forall|i: int| 0 <= i < rules_12().len() ==> #[trigger] rule_view_ok(rules_12()[i]),
        forall|i: int| 0 <= i < rules_12().len() ==> #[trigger] keeps_godan_rows(rules_12()[i]),
{
    reveal(rules_12);
    reveal_strlit("かったり");
    lemma_utf8_size_bound("かったり"@);
    reveal_strlit("い");
    lemma_utf8_size_bound("い"@);
    reveal_strlit("たり");
    lemma_utf8_size_bound("たり"@);
    reveal_strlit("る");
    lemma_utf8_size_bound("る"@);
    reveal_strlit("いたり");
    lemma_utf8_size_bound("いたり"@);
    reveal_strlit("く");
    lemma_utf8_size_bound("く"@);
    reveal_strlit("いだり");
    lemma_utf8_size_bound("いだり"@);
    reveal_strlit("ぐ");
    lemma_utf8_size_bound("ぐ"@);
    reveal_strlit("したり");
    lemma_utf8_size_bound("したり"@);
    reveal_strlit("す");
    lemma_utf8_size_bound("す"@);
    reveal_strlit("ったり");
    lemma_utf8_size_bound("ったり"@);
    reveal_strlit("う");
    lemma_utf8_size_bound("う"@);
    reveal_strlit("つ");
    lemma_utf8_size_bound("つ"@);
    reveal_strlit("んだり");
    lemma_utf8_size_bound("んだり"@);
    reveal_strlit("ぬ");
    lemma_utf8_size_bound("ぬ"@);
    reveal_strlit("ぶ");
    lemma_utf8_size_bound("ぶ"@);
    reveal_strlit("む");
    lemma_utf8_size_bound("む"@);
    reveal_strlit("じたり");
    lemma_utf8_size_bound("じたり"@);
    reveal_strlit("ずる");
    lemma_utf8_size_bound("ずる"@);
    reveal_strlit("する");
    lemma_utf8_size_bound("する"@);
    reveal_strlit("為たり");
    lemma_utf8_size_bound("為たり"@);
    reveal_strlit("為る");
    lemma_utf8_size_bound("為る"@);
    reveal_strlit("きたり");
    lemma_utf8_size_bound("きたり"@);
    reveal_strlit("くる");
    lemma_utf8_size_bound("くる"@);
    reveal_strlit("来たり");
    lemma_utf8_size_bound("来たり"@);
    reveal_strlit("来る");
    lemma_utf8_size_bound("来る"@);
    reveal_strlit("來たり");
    lemma_utf8_size_bound("來たり"@);
    reveal_strlit("來る");
    lemma_utf8_size_bound("來る"@);
    reveal_strlit("いったり");
    lemma_utf8_size_bound("いったり"@);
    reveal_strlit("いく");
    lemma_utf8_size_bound("いく"@);
    reveal_strlit("行ったり");
    lemma_utf8_size_bound("行ったり"@);
    reveal_strlit("行く");
    lemma_utf8_size_bound("行く"@);
    reveal_strlit("逝ったり");
    lemma_utf8_size_bound("逝ったり"@);
    reveal_strlit("逝く");
    lemma_utf8_size_bound("逝く"@);
    reveal_strlit("往ったり");
    lemma_utf8_size_bound("往ったり"@);
    reveal_strlit("往く");
    lemma_utf8_size_bound("往く"@);
    reveal_strlit("こうたり");
    lemma_utf8_size_bound("こうたり"@);
    reveal_strlit("こう");
    lemma_utf8_size_bound("こう"@);
    reveal_strlit("とうたり");
    lemma_utf8_size_bound("とうたり"@);
    reveal_strlit("とう");
    lemma_utf8_size_bound("とう"@);
    reveal_strlit("請うたり");
    lemma_utf8_size_bound("請うたり"@);
    reveal_strlit("請う");
    lemma_utf8_size_bound("請う"@);
    reveal_strlit("乞うたり");
    lemma_utf8_size_bound("乞うたり"@);
    reveal_strlit("乞う");
    lemma_utf8_size_bound("乞う"@);
    reveal_strlit("恋うたり");
    lemma_utf8_size_bound("恋うたり"@);
    reveal_strlit("恋う");
    lemma_utf8_size_bound("恋う"@);
    reveal_strlit("問うたり");
    lemma_utf8_size_bound("問うたり"@);
    reveal_strlit("問う");
    lemma_utf8_size_bound("問う"@);
    reveal_strlit("訪うたり");
    lemma_utf8_size_bound("訪うたり"@);
    reveal_strlit("訪う");
    lemma_utf8_size_bound("訪う"@);
    reveal_strlit("宣うたり");
    lemma_utf8_size_bound("宣うたり"@);
    reveal_strlit("宣う");
    lemma_utf8_size_bound("宣う"@);
    reveal_strlit("曰うたり");
    lemma_utf8_size_bound("曰うたり"@);
    reveal_strlit("曰う");
    lemma_utf8_size_bound("曰う"@);
    reveal_strlit("給うたり");
    lemma_utf8_size_bound("給うたり"@);
    reveal_strlit("給う");
    lemma_utf8_size_bound("給う"@);
    reveal_strlit("賜うたり");
    lemma_utf8_size_bound("賜うたり"@);
    reveal_strlit("賜う");
    lemma_utf8_size_bound("賜う"@);
    reveal_strlit("揺蕩うたり");
    lemma_utf8_size_bound("揺蕩うたり"@);
    reveal_strlit("揺蕩う");
    lemma_utf8_size_bound("揺蕩う"@);
    reveal_strlit("のたもうたり");
    lemma_utf8_size_bound("のたもうたり"@);
    reveal_strlit("のたまう");
    lemma_utf8_size_bound("のたまう"@);
    reveal_strlit("たもうたり");
    lemma_utf8_size_bound("たもうたり"@);
    reveal_strlit("たまう");
    lemma_utf8_size_bound("たまう"@);
    reveal_strlit("たゆとうたり");
    lemma_utf8_size_bound("たゆとうたり"@);
    reveal_strlit("たゆたう");
    lemma_utf8_size_bound("たゆたう"@);
}

fn transform_12() -> (r: Transform)
    ensures
        rules_view(r.rules@) == rules_12(),
{
    let mut rules: Vec<Inflection> = Vec::new();
    rules.push(suffix_inflection("かったり", "い", 0, Conditions(Conditions::adj_i).with_subconditions()));
    rules.push(suffix_inflection("たり", "る", 0, Conditions(Conditions::v1).with_subconditions()));
    rules.push(suffix_inflection("いたり", "く", 0, Conditions(Conditions::v5).with_subconditions()));
    rules.push(suffix_inflection("いだり", "ぐ", 0, Conditions(Conditions::v5).with_subconditions()));
    rules.push(suffix_inflection("したり", "す", 0, Conditions(Conditions::v5).with_subconditions()));
    rules.push(suffix_inflection("ったり", "う", 0, Conditions(Conditions::v5).with_subconditions()));
    rules.push(suffix_inflection("ったり", "つ", 0, Conditions(Conditions::v5).with_subconditions()));
    rules.push(suffix_inflection("ったり", "る", 0, Conditions(Conditions::v5).with_subconditions()));
    rules.push(suffix_inflection("んだり", "ぬ", 0, Conditions(Conditions::v5).with_subconditions()));
    rules.push(suffix_inflection("んだり", "ぶ", 0, Conditions(Conditions::v5).with_subconditions()));
    rules.push(suffix_inflection("んだり", "む", 0, Conditions(Conditions::v5).with_subconditions()));
    rules.push(suffix_inflection("じたり", "ずる", 0, Conditions(Conditions::vz).with_subconditions()));
    rules.push(suffix_inflection("したり", "する", 0, Conditions(Conditions::vs).with_subconditions()));
    rules.push(suffix_inflection("為たり", "為る", 0, Conditions(Conditions::vs).with_subconditions()));
    rules.push(suffix_inflection("きたり", "くる", 0, Conditions(Conditions::vk).with_subconditions()));
    rules.push(suffix_inflection("来たり", "来る", 0, Conditions(Conditions::vk).with_subconditions()));
    rules.push(suffix_inflection("來たり", "來る", 0, Conditions(Conditions::vk).with_subconditions()));
    rules.push(suffix_inflection("いったり", "いく", 0, Conditions(Conditions::v5).with_subconditions()));
    rules.push(suffix_inflection("行ったり", "行く", 0, Conditions(Conditions::v5).with_subconditions()));
    rules.push(suffix_inflection("逝ったり", "逝く", 0, Conditions(Conditions::v5).with_subconditions()));
    rules.push(suffix_inflection("往ったり", "往く", 0, Conditions(Conditions::v5).with_subconditions()));
    rules.push(suffix_inflection("こうたり", "こう", 0, Conditions(Conditions::v5).with_subconditions()));
    rules.push(suffix_inflection("とうたり", "とう", 0, Conditions(Conditions::v5).with_subconditions()));
    rules.push(suffix_inflection("請うたり", "請う", 0, Conditions(Conditions::v5).with_subconditions()));
    rules.push(suffix_inflection("乞うたり", "乞う", 0, Conditions(Conditions::v5).with_subconditions()));
    rules.push(suffix_inflection("恋うたり", "恋う", 0, Conditions(Conditions::v5).with_subconditions()));
    rules.push(suffix_inflection("問うたり", "問う", 0, Conditions(Conditions::v5).with_subconditions()));
    rules.push(suffix_inflection("訪うたり", "訪う", 0, Conditions(Conditions::v5).with_subconditions()));
    rules.push(suffix_inflection("宣うたり", "宣う", 0, Conditions(Conditions::v5).with_subconditions()));
    rules.push(suffix_inflection("曰うたり", "曰う", 0, Conditions(Conditions::v5).with_subconditions()));
    rules.push(suffix_inflection("給うたり", "給う", 0, Conditions(Conditions::v5).with_subconditions()));
    rules.push(suffix_inflection("賜うたり", "賜う", 0, Conditions(Conditions::v5).with_subconditions()));
    rules.push(suffix_inflection("揺蕩うたり", "揺蕩う", 0, Conditions(Conditions::v5).with_subconditions()));
    rules.push(suffix_inflection("のたもうたり", "のたまう", 0, Conditions(Conditions::v5).with_subconditions()));
    rules.push(suffix_inflection("たもうたり", "たまう", 0, Conditions(Conditions::v5).with_subconditions()));
    rules.push(suffix_inflection("たゆとうたり", "たゆたう", 0, Conditions(Conditions::v5).with_subconditions()));
    proof {
        reveal(rules_12);
        assert(rules_view(rules@) =~~= rules_12());
    }
    Transform { name: "-たり", description: "1. Shows two actions occurring back and forth (when used with two verbs).\n2. Shows examples of actions and states (when used with multiple verbs and adjectives).\n\nUsage: Attach たり to the continuative form (連用形) of verbs after euphonic change form, かったり to the stem of i-adjectives\n", rules }
}

/// The rules of `-て`: ending, replacement, conditions in and out,
/// and endings rewritten first.
#[verifier::opaque]
pub open spec fn rules_13() -> Seq<RuleView> {
    seq![
        ("くて"@, "い"@, subconditions_added(Conditions::te), subconditions_added(Conditions::adj_i), Seq::<(Seq<char>, Seq<char>)>::empty()),
        ("て"@, "る"@, subconditions_added(Conditions::te), subconditions_added(Conditions::v1), Seq::<(Seq<char>, Seq<char>)>::empty()),
        ("いて"@, "く"@, subconditions_added(Conditions::te), subconditions_added(Conditions::v5), Seq::<(Seq<char>, Seq<char>)>::empty()),
        ("いで"@, "ぐ"@, subconditions_added(Conditions::te), subconditions_added(Conditions::v5), Seq::<(Seq<char>, Seq<char>)>::empty()),
        ("して"@, "す"@, subconditions_added(Conditions::te), subconditions_added(Conditions::v5), Seq::<(Seq<char>, Seq<char>)>::empty()),
        ("って"@, "う"@, subconditions_added(Conditions::te), subconditions_added(Conditions::v5), Seq::<(Seq<char>, Seq<char>)>::empty()),
        ("って"@, "つ"@, subconditions_added(Conditions::te), subconditions_added(Conditions::v5), Seq::<(Seq<char>, Seq<char>)>::empty()),
        ("って"@, "る"@, subconditions_added(Conditions::te), subconditions_added(Conditions::v5), Seq::<(Seq<char>, Seq<char>)>::empty()),
        ("んで"@, "ぬ"@, subconditions_added(Conditions::te), subconditions_added(Conditions::v5), seq![("こんで"@, "込んで"@)]),
        ("んで"@, "ぶ"@, subconditions_added(Conditions::te), subconditions_added(Conditions::v5), seq![("こんで"@, "込んで"@)]),
        ("んで"@, "む"@, subconditions_added(Conditions::te), subconditions_added(Conditions::v5), seq![("こんで"@, "込んで"@)]),
        ("じて"@, "ずる"@, subconditions_added(Conditions::te), subconditions_added(Conditions::vz), Seq::<(Seq<char>, Seq<char>)>::empty()),
        ("して"@, "する"@, subconditions_added(Conditions::te), subconditions_added(Conditions::vs), Seq::<(Seq<char>, Seq<char>)>::empty()),
        ("為て"@, "為る"@, subconditions_added(Conditions::te), subconditions_added(Conditions::vs), Seq::<(Seq<char>, Seq<char>)>::empty()),
        ("きて"@, "くる"@, subconditions_added(Conditions::te), subconditions_added(Conditions::vk), Seq::<(Seq<char>, Seq<char>)>::empty()),
        ("来て"@, "来る"@, subconditions_added(Conditions::te), subconditions_added(Conditions::vk), Seq::<(Seq<char>, Seq<char>)>::empty()),
        ("來て"@, "來る"@, subconditions_added(Conditions::te), subconditions_added(Conditions::vk), Seq::<(Seq<char>, Seq<char>)>::empty()),
        ("まして"@, "ます"@, 0u32, subconditions_added(Conditions::masu), Seq::<(Seq<char>, Seq<char>)>::empty()),
        ("いって"@, "いく"@, subconditions_added(Conditions::te), subconditions_added(Conditions::v5), Seq::<(Seq<char>, Seq<char>)>::empty()),
        ("行って"@, "行く"@, subconditions_added(Conditions::te), subconditions_added(Conditions::v5), Seq::<(Seq<char>, Seq<char>)>::empty()),
        ("逝って"@, "逝く"@, subconditions_added(Conditions::te), subconditions_added(Conditions::v5), Seq::<(Seq<char>, Seq<char>)>::empty()),
        ("往って"@, "往く"@, subconditions_added(Conditions::te), subconditions_added(Conditions::v5), Seq::<(Seq<char>, Seq<char>)>::empty()),
        ("こうて"@, "こう"@, subconditions_added(Conditions::te), subconditions_added(Conditions::v5), Seq::<(Seq<char>, Seq<char>)>::empty()),
        ("とうて"@, "とう"@, subconditions_added(Conditions::te), subconditions_added(Conditions::v5), Seq::<(Seq<char>, Seq<char>)>::empty()),
        ("請うて"@, "請う"@, subconditions_added(Conditions::te), subconditions_added(Conditions::v5), Seq::<(Seq<char>, Seq<char>)>::empty()),
        ("乞うて"@, "乞う"@, subconditions_added(Conditions::te), subconditions_added(Conditions::v5), Seq::<(Seq<char>, Seq<char>)>::empty()),
        ("恋うて"@, "恋う"@, subconditions_added(Conditions::te), subconditions_added(Conditions::v5), Seq::<(Seq<char>, Seq<char>)>::empty()),
        ("問うて"@, "問う"@, subconditions_added(Conditions::te), subconditions_added(Conditions::v5), Seq::<(Seq<char>, Seq<char>)>::empty()),
        ("訪うて"@, "訪う"@, subconditions_added(Conditions::te), subconditions_added(Conditions::v5), Seq::<(Seq<char>, Seq<char>)>::empty()),
        ("宣うて"@, "宣う"@, subconditions_added(Conditions::te), subconditions_added(Conditions::v5), Seq::<(Seq<char>, Seq<char>)>::empty()),
        ("曰うて"@, "曰う"@, subconditions_added(Conditions::te), subconditions_added(Conditions::v5), Seq::<(Seq<char>, Seq<char>)>::empty()),
        ("給うて"@, "給う"@, subconditions_added(Conditions::te), subconditions_added(Conditions::v5), Seq::<(Seq<char>, Seq<char>)>::empty()),
        ("賜うて"@, "賜う"@, subconditions_added(Conditions::te), subconditions_added(Conditions::v5), Seq::<(Seq<char>, Seq<char>)>::empty()),
        ("揺蕩うて"@, "揺蕩う"@, subconditions_added(Conditions::te), subconditions_added(Conditions::v5), Seq::<(Seq<char>, Seq<char>)>::empty()),
        ("のたもうて"@, "のたまう"@, subconditions_added(Conditions::te), subconditions_added(Conditions::v5), Seq::<(Seq<char>, Seq<char>)>::empty()),
        ("たもうて"@, "たまう"@, subconditions_added(Conditions::te), subconditions_added(Conditions::v5), Seq::<(Seq<char>, Seq<char>)>::empty()),
        ("たゆとうて"@, "たゆたう"@, subconditions_added(Conditions::te), subconditions_added(Conditions::v5), Seq::<(Seq<char>, Seq<char>)>::empty()),
    ]
}

#[verifier::rlimit(60)]
proof fn lemma_rules_13_ok()
    ensures
        forall|i: int| 0 <= i < rules_13().len() ==> #[trigger] rule_view_ok(rules_13()[i]),
        forall|i: int| 0 <= i < rules_13().len() ==> #[trigger] keeps_godan_rows(rules_13()[i]),
{
    reveal(rules_13);
    reveal_strlit("くて");
    lemma_utf8_size_bound("くて"@);
    reveal_strlit("い");
    lemma_utf8_size_bound("い"@);
    reveal_strlit("て");
    lemma_utf8_size_bound("て"@);
    reveal_strlit("る");
    lemma_utf8_size_bound("る"@);
    reveal_strlit("いて");
    lemma_utf8_size_bound("いて"@);
    reveal_strlit("く");
    lemma_utf8_size_bound("く"@);
    reveal_strlit("いで");
    lemma_utf8_size_bound("いで"@);
    reveal_strlit("ぐ");
    lemma_utf8_size_bound("ぐ"@);
    reveal_strlit("して");
    lemma_utf8_size_bound("して"@);
    reveal_strlit("す");
    lemma_utf8_size_bound("す"@);
    reveal_strlit("って");
    lemma_utf8_size_bound("って"@);
    reveal_strlit("う");
    lemma_utf8_size_bound("う"@);
    reveal_strlit("つ");
    lemma_utf8_size_bound("つ"@);
    reveal_strlit("んで");
    lemma_utf8_size_bound("んで"@);
    reveal_strlit("ぬ");
    lemma_utf8_size_bound("ぬ"@);
    reveal_strlit("こんで");
    lemma_utf8_size_bound("こんで"@);
    reveal_strlit("込んで");
    lemma_utf8_size_bound("込んで"@);
    reveal_strlit("ぶ");
    lemma_utf8_size_bound("ぶ"@);
    reveal_strlit("む");
    lemma_utf8_size_bound("む"@);
    reveal_strlit("じて");
    lemma_utf8_size_bound("じて"@);
    reveal_strlit("ずる");
    lemma_utf8_size_bound("ずる"@);
    reveal_strlit("する");
    lemma_utf8_size_bound("する"@);
    reveal_strlit("為て");
    lemma_utf8_size_bound("為て"@);
    reveal_strlit("為る");
    lemma_utf8_size_bound("為る"@);
    reveal_strlit("きて");
    lemma_utf8_size_bound("きて"@);
    reveal_strlit("くる");
    lemma_utf8_size_bound("くる"@);
    reveal_strlit("来て");
    lemma_utf8_size_bound("来て"@);
    reveal_strlit("来る");
    lemma_utf8_size_bound("来る"@);
    reveal_strlit("來て");
    lemma_utf8_size_bound("來て"@);
    reveal_strlit("來る");
    lemma_utf8_size_bound("來る"@);
    reveal_strlit("まして");
    lemma_utf8_size_bound("まして"@);
    reveal_strlit("ます");
    lemma_utf8_size_bound("ます"@);
    reveal_strlit("いって");
    lemma_utf8_size_bound("いって"@);
    reveal_strlit("いく");
    lemma_utf8_size_bound("いく"@);
    reveal_strlit("行って");
    lemma_utf8_size_bound("行って"@);
    reveal_strlit("行く");
    lemma_utf8_size_bound("行く"@);
    reveal_strlit("逝って");
    lemma_utf8_size_bound("逝って"@);
    reveal_strlit("逝く");
    lemma_utf8_size_bound("逝く"@);
    reveal_strlit("往って");
    lemma_utf8_size_bound("往って"@);
    reveal_strlit("往く");
    lemma_utf8_size_bound("往く"@);
    reveal_strlit("こうて");
    lemma_utf8_size_bound("こうて"@);
    reveal_strlit("こう");
    lemma_utf8_size_bound("こう"@);
    reveal_strlit("とうて");
    lemma_utf8_size_bound("とうて"@);
    reveal_strlit("とう");
    lemma_utf8_size_bound("とう"@);
    reveal_strlit("請うて");
    lemma_utf8_size_bound("請うて"@);
    reveal_strlit("請う");
    lemma_utf8_size_bound("請う"@);
    reveal_strlit("乞うて");
    lemma_utf8_size_bound("乞うて"@);
    reveal_strlit("乞う");
    lemma_utf8_size_bound("乞う"@);
    reveal_strlit("恋うて");
    lemma_utf8_size_bound("恋うて"@);
    reveal_strlit("恋う");
    lemma_utf8_size_bound("恋う"@);
    reveal_strlit("問うて");
    lemma_utf8_size_bound("問うて"@);
    reveal_strlit("問う");
    lemma_utf8_size_bound("問う"@);
    reveal_strlit("訪うて");
    lemma_utf8_size_bound("訪うて"@);
    reveal_strlit("訪う");
    lemma_utf8_size_bound("訪う"@);
    reveal_strlit("宣うて");
    lemma_utf8_size_bound("宣うて"@);
    reveal_strlit("宣う");
    lemma_utf8_size_bound("宣う"@);
    reveal_strlit("曰うて");
    lemma_utf8_size_bound("曰うて"@);
    reveal_strlit("曰う");
    lemma_utf8_size_bound("曰う"@);
    reveal_strlit("給うて");
    lemma_utf8_size_bound("給うて"@);
    reveal_strlit("給う");
    lemma_utf8_size_bound("給う"@);
    reveal_strlit("賜うて");
    lemma_utf8_size_bound("賜うて"@);
    reveal_strlit("賜う");
    lemma_utf8_size_bound("賜う"@);
    reveal_strlit("揺蕩うて");
    lemma_utf8_size_bound("揺蕩うて"@);
    reveal_strlit("揺蕩う");
    lemma_utf8_size_bound("揺蕩う"@);
    reveal_strlit("のたもうて");
    lemma_utf8_size_bound("のたもうて"@);
    reveal_strlit("のたまう");
    lemma_utf8_size_bound("のたまう"@);
    reveal_strlit("たもうて");
    lemma_utf8_size_bound("たもうて"@);
    reveal_strlit("たまう");
    lemma_utf8_size_bound("たまう"@);
    reveal_strlit("たゆとうて");
    lemma_utf8_size_bound("たゆとうて"@);
    reveal_strlit("たゆたう");
    lemma_utf8_size_bound("たゆたう"@);
}

fn transform_13() -> (r: Transform)
    ensures
        rules_view(r.rules@) == rules_13(),
{
    let mut rules: Vec<Inflection> = Vec::new();
    rules.push(suffix_inflection("くて", "い", Conditions(Conditions::te).with_subconditions(), Conditions(Conditions::adj_i).with_subconditions()));
    rules.push(suffix_inflection("て", "る", Conditions(Conditions::te).with_subconditions(), Conditions(Conditions::v1).with_subconditions()));
    rules.push(suffix_inflection("いて", "く", Conditions(Conditions::te).with_subconditions(), Conditions(Conditions::v5).with_subconditions()));
    rules.push(suffix_inflection("いで", "ぐ", Conditions(Conditions::te).with_subconditions(), Conditions(Conditions::v5).with_subconditions()));
    rules.push(suffix_inflection("して", "す", Conditions(Conditions::te).with_subconditions(), Conditions(Conditions::v5).with_subconditions()));
    rules.push(suffix_inflection("って", "う", Conditions(Conditions::te).with_subconditions(), Conditions(Conditions::v5).with_subconditions()));
    rules.push(suffix_inflection("って", "つ", Conditions(Conditions::te).with_subconditions(), Conditions(Conditions::v5).with_subconditions()));
    rules.push(suffix_inflection("って", "る", Conditions(Conditions::te).with_subconditions(), Conditions(Conditions::v5).with_subconditions()));
    rules.push(suffix_inflection_with_replacements("んで", "ぬ", Conditions(Conditions::te).with_subconditions(), Conditions(Conditions::v5).with_subconditions(), &[("こんで", "込んで")]));
    rules.push(suffix_inflection_with_replacements("んで", "ぶ", Conditions(Conditions::te).with_subconditions(), Conditions(Conditions::v5).with_subconditions(), &[("こんで", "込んで")]));
    rules.push(suffix_inflection_with_replacements("んで", "む", Conditions(Conditions::te).with_subconditions(), Conditions(Conditions::v5).with_subconditions(), &[("こんで", "込んで")]));
    rules.push(suffix_inflection("じて", "ずる", Conditions(Conditions::te).with_subconditions(), Conditions(Conditions::vz).with_subconditions()));
    rules.push(suffix_inflection("して", "する", Conditions(Conditions::te).with_subconditions(), Conditions(Conditions::vs).with_subconditions()));
    rules.push(suffix_inflection("為て", "為る", Conditions(Conditions::te).with_subconditions(), Conditions(Conditions::vs).with_subconditions()));
    rules.push(suffix_inflection("きて", "くる", Conditions(Conditions::te).with_subconditions(), Conditions(Conditions::vk).with_subconditions()));
    rules.push(suffix_inflection("来て", "来る", Conditions(Conditions::te).with_subconditions(), Conditions(Conditions::vk).with_subconditions()));
    rules.push(suffix_inflection("來て", "來る", Conditions(Conditions::te).with_subconditions(), Conditions(Conditions::vk).with_subconditions()));
    rules.push(suffix_inflection("まして", "ます", 0, Conditions(Conditions::masu).with_subconditions()));
    rules.push(suffix_inflection("いって", "いく", Conditions(Conditions::te).with_subconditions(), Conditions(Conditions::v5).with_subconditions()));
    rules.push(suffix_inflection("行って", "行く", Conditions(Conditions::te).with_subconditions(), Conditions(Conditions::v5).with_subconditions()));
    rules.push(suffix_inflection("逝って", "逝く", Conditions(Conditions::te).with_subconditions(), Conditions(Conditions::v5).with_subconditions()));
    rules.push(suffix_inflection("往って", "往く", Conditions(Conditions::te).with_subconditions(), Conditions(Conditions::v5).with_subconditions()));
    rules.push(suffix_inflection("こうて", "こう", Conditions(Conditions::te).with_subconditions(), Conditions(Conditions::v5).with_subconditions()));
    rules.push(suffix_inflection("とうて", "とう", Conditions(Conditions::te).with_subconditions(), Conditions(Conditions::v5).with_subconditions()));
    rules.push(suffix_inflection("請うて", "請う", Conditions(Conditions::te).with_subconditions(), Conditions(Conditions::v5).with_subconditions()));
    rules.push(suffix_inflection("乞うて", "乞う", Conditions(Conditions::te).with_subconditions(), Conditions(Conditions::v5).with_subconditions()));
    rules.push(suffix_inflection("恋うて", "恋う", Conditions(Conditions::te).with_subconditions(), Conditions(Conditions::v5).with_subconditions()));
    rules.push(suffix_inflection("問うて", "問う", Conditions(Conditions::te).with_subconditions(), Conditions(Conditions::v5).with_subconditions()));
    rules.push(suffix_inflection("訪うて", "訪う", Conditions(Conditions::te).with_subconditions(), Conditions(Conditions::v5).with_subconditions()));
    rules.push(suffix_inflection("宣うて", "宣う", Conditions(Conditions::te).with_subconditions(), Conditions(Conditions::v5).with_subconditions()));
    rules.push(suffix_inflection("曰うて", "曰う", Conditions(Conditions::te).with_subconditions(), Conditions(Conditions::v5).with_subconditions()));
    rules.push(suffix_inflection("給うて", "給う", Conditions(Conditions::te).with_subconditions(), Conditions(Conditions::v5).with_subconditions()));
    rules.push(suffix_inflection("賜うて", "賜う", Conditions(Conditions::te).with_subconditions(), Conditions(Conditions::v5).with_subconditions()));
    rules.push(suffix_inflection("揺蕩うて", "揺蕩う", Conditions(Conditions::te).with_subconditions(), Conditions(Conditions::v5).with_subconditions()));
    rules.push(suffix_inflection("のたもうて", "のたまう", Conditions(Conditions::te).with_subconditions(), Conditions(Conditions::v5).with_subconditions()));
    rules.push(suffix_inflection("たもうて", "たまう", Conditions(Conditions::te).with_subconditions(), Conditions(Conditions::v5).with_subconditions()));
    rules.push(suffix_inflection("たゆとうて", "たゆたう", Conditions(Conditions::te).with_subconditions(), Conditions(Conditions::v5).with_subconditions()));
    proof {
        reveal(rules_13);
        assert(rules_view(rules@) =~~= rules_13());
    }
    Transform { name: "-て", description: "て-form.\n\nIt has a myriad of meanings. Primarily, it is a conjunctive particle that connects two clauses together.\n\nUsage: Attach て to the continuative form (連用形) of verbs after euphonic change form, くて to the stem of i-adjectives.\n", rules }
}

/// The rules of `-ず`: ending, replacement, conditions in and out,
/// and endings rewritten first.
#[verifier::opaque]
pub open spec fn rules_14() -> Seq<RuleView> {
    seq![
        ("ず"@, "る"@, 0u32, subconditions_added(Conditions::v1), Seq::<(Seq<char>, Seq<char>)>::empty()),
        ("かず"@, "く"@, 0u32, subconditions_added(Conditions::v5), Seq::<(Seq<char>, Seq<char>)>::empty()),
        ("がず"@, "ぐ"@, 0u32, subconditions_added(Conditions::v5), Seq::<(Seq<char>, Seq<char>)>::empty()),
        ("さず"@, "す"@, 0u32, subconditions_added(Conditions::v5), Seq::<(Seq<char>, Seq<char>)>::empty()),
        ("たず"@, "つ"@, 0u32, subconditions_added(Conditions::v5), Seq::<(Seq<char>, Seq<char>)>::empty()),
        ("なず"@, "ぬ"@, 0u32, subconditions_added(Conditions::v5), Seq::<(Seq<char>, Seq<char>)>::empty()),
        ("ばず"@, "ぶ"@, 0u32, subconditions_added(Conditions::v5), Seq::<(Seq<char>, Seq<char>)>::empty()),
        ("まず"@, "む"@, 0u32, subconditions_added(Conditions::v5), Seq::<(Seq<char>, Seq<char>)>::empty()),
        ("らず"@, "る"@, 0u32, subconditions_added(Conditions::v5), Seq::<(Seq<char>, Seq<char>)>::empty()),
        ("わず"@, "う"@, 0u32, subconditions_added(Conditions::v5), Seq::<(Seq<char>, Seq<char>)>::empty()),
        ("ぜず"@, "ずる"@, 0u32, subconditions_added(Conditions::vz), Seq::<(Seq<char>, Seq<char>)>::empty()),
        ("せず"@, "する"@, 0u32, subconditions_added(Conditions::vs), Seq::<(Seq<char>, Seq<char>)>::empty()),
        ("為ず"@, "為る"@, 0u32, subconditions_added(Conditions::vs), Seq::<(Seq<char>, Seq<char>)>::empty()),
        ("こず"@, "くる"@, 0u32, subconditions_added(Conditions::vk), Seq::<(Seq<char>, Seq<char>)>::empty()),
        ("来ず"@, "来る"@, 0u32, subconditions_added(Conditions::vk), Seq::<(Seq<char>, Seq<char>)>::empty()),
        ("來ず"@, "來る"@, 0u32, subconditions_added(Conditions::vk), Seq::<(Seq<char>, Seq<char>)>::empty()),
    ]
}

#[verifier::rlimit(60)]
proof fn lemma_rules_14_ok()
    ensures
        forall|i: int| 0 <= i < rules_14().len() ==> #[trigger] rule_view_ok(rules_14()[i]),
        forall|i: int| 0 <= i < rules_14().len() ==> #[trigger] keeps_godan_rows(rules_14()[i]),
{
    reveal(rules_14);
    reveal_strlit("ず");
    lemma_utf8_size_bound("ず"@);
    reveal_strlit("る");
    lemma_utf8_size_bound("る"@);
    reveal_strlit("かず");
    lemma_utf8_size_bound("かず"@);
    reveal_strlit("く");
    lemma_utf8_size_bound("く"@);
    reveal_strlit("がず");
    lemma_utf8_size_bound("がず"@);
    reveal_strlit("ぐ");
    lemma_utf8_size_bound("ぐ"@);
    reveal_strlit("さず");
    lemma_utf8_size_bound("さず"@);
    reveal_strlit("す");
    lemma_utf8_size_bound("す"@);
    reveal_strlit("たず");
    lemma_utf8_size_bound("たず"@);
    reveal_strlit("つ");
    lemma_utf8_size_bound("つ"@);
    reveal_strlit("なず");
    lemma_utf8_size_bound("なず"@);
    reveal_strlit("ぬ");
    lemma_utf8_size_bound("ぬ"@);
    reveal_strlit("ばず");
    lemma_utf8_size_bound("ばず"@);
    reveal_strlit("ぶ");
    lemma_utf8_size_bound("ぶ"@);
    reveal_strlit("まず");
    lemma_utf8_size_bound("まず"@);
    reveal_strlit("む");
    lemma_utf8_size_bound("む"@);
    reveal_strlit("らず");
    lemma_utf8_size_bound("らず"@);
    reveal_strlit("わず");
    lemma_utf8_size_bound("わず"@);
    reveal_strlit("う");
    lemma_utf8_size_bound("う"@);
    reveal_strlit("ぜず");
    lemma_utf8_size_bound("ぜず"@);
    reveal_strlit("ずる");
    lemma_utf8_size_bound("ずる"@);
    reveal_strlit("せず");
    lemma_utf8_size_bound("せず"@);
    reveal_strlit("する");
    lemma_utf8_size_bound("する"@);
    reveal_strlit("為ず");
    lemma_utf8_size_bound("為ず"@);
    reveal_strlit("為る");
    lemma_utf8_size_bound("為る"@);
    reveal_strlit("こず");
    lemma_utf8_size_bound("こず"@);
    reveal_strlit("くる");
    lemma_utf8_size_bound("くる"@);
    reveal_strlit("来ず");
    lemma_utf8_size_bound("来ず"@);
    reveal_strlit("来る");
    lemma_utf8_size_bound("来る"@);
    reveal_strlit("來ず");
    lemma_utf8_size_bound("來ず"@);
    reveal_strlit("來る");
    lemma_utf8_size_bound("來る"@);
}

fn transform_14() -> (r: Transform)
    ensures
        rules_view(r.rules@) == rules_14(),
{
    let mut rules: Vec<Inflection> = Vec::new();
    rules.push(suffix_inflection("ず", "る", 0, Conditions(Conditions::v1).with_subconditions()));
    rules.push(suffix_inflection("かず", "く", 0, Conditions(Conditions::v5).with_subconditions()));
    rules.push(suffix_inflection("がず", "ぐ", 0, Conditions(Conditions::v5).with_subconditions()));
    rules.push(suffix_inflection("さず", "す", 0, Conditions(Conditions::v5).with_subconditions()));
    rules.push(suffix_inflection("たず", "つ", 0, Conditions(Conditions::v5).with_subconditions()));
    rules.push(suffix_inflection("なず", "ぬ", 0, Conditions(Conditions::v5).with_subconditions()));
    rules.push(suffix_inflection("ばず", "ぶ", 0, Conditions(Conditions::v5).with_subconditions()));
    rules.push(suffix_inflection("まず", "む", 0, Conditions(Conditions::v5).with_subconditions()));
    rules.push(suffix_inflection("らず", "る", 0, Conditions(Conditions::v5).with_subconditions()));
    rules.push(suffix_inflection("わず", "う", 0, Conditions(Conditions::v5).with_subconditions()));
    rules.push(suffix_inflection("ぜず", "ずる", 0, Conditions(Conditions::vz).with_subconditions()));
    rules.push(suffix_inflection("せず", "する", 0, Conditions(Conditions::vs).with_subconditions()));
    rules.push(suffix_inflection("為ず", "為る", 0, Conditions(Conditions::vs).with_subconditions()));
    rules.push(suffix_inflection("こず", "くる", 0, Conditions(Conditions::vk).with_subconditions()));
    rules.push(suffix_inflection("来ず", "来る", 0, Conditions(Conditions::vk).with_subconditions()));
    rules.push(suffix_inflection("來ず", "來る", 0, Conditions(Conditions::vk).with_subconditions()));
    proof {
        reveal(rules_14);
        assert(rules_view(rules@) =~~= rules_14());
    }
    Transform { name: "-ず", description: "1. Negative form of verbs.\n2. Continuative form (連用形) of the particle ぬ (nu).\n\nUsage: Attach ず to the irrealis form (未然形) of verbs.\n", rules }
}

/// The rules of `-ぬ`: ending, replacement, conditions in and out,
/// and endings rewritten first.
#[verifier::opaque]
pub open spec fn rules_15() -> Seq<RuleView> {
    seq![
        ("ぬ"@, "る"@, 0u32, subconditions_added(Conditions::v1), Seq::<(Seq<char>, Seq<char>)>::empty()),
        ("かぬ"@, "く"@, 0u32, subconditions_added(Conditions::v5), Seq::<(Seq<char>, Seq<char>)>::empty()),
        ("がぬ"@, "ぐ"@, 0u32, subconditions_added(Conditions::v5), Seq::<(Seq<char>, Seq<char>)>::empty()),
        ("さぬ"@, "す"@, 0u32, subconditions_added(Conditions::v5), Seq::<(Seq<char>, Seq<char>)>::empty()),
        ("たぬ"@, "つ"@, 0u32, subconditions_added(Conditions::v5), Seq::<(Seq<char>, Seq<char>)>::empty()),
        ("なぬ"@, "ぬ"@, 0u32, subconditions_added(Conditions::v5), Seq::<(Seq<char>, Seq<char>)>::empty()),
        ("ばぬ"@, "ぶ"@, 0u32, subconditions_added(Conditions::v5), Seq::<(Seq<char>, Seq<char>)>::empty()),
        ("まぬ"@, "む"@, 0u32, subconditions_added(Conditions::v5), Seq::<(Seq<char>, Seq<char>)>::empty()),
        ("らぬ"@, "る"@, 0u32, subconditions_added(Conditions::v5), Seq::<(Seq<char>, Seq<char>)>::empty()),
        ("わぬ"@, "う"@, 0u32, subconditions_added(Conditions::v5), Seq::<(Seq<char>, Seq<char>)>::empty()),
        ("ぜぬ"@, "ずる"@, 0u32, subconditions_added(Conditions::vz), Seq::<(Seq<char>, Seq<char>)>::empty()),
        ("せぬ"@, "する"@, 0u32, subconditions_added(Conditions::vs), Seq::<(Seq<char>, Seq<char>)>::empty()),
        ("為ぬ"@, "為る"@, 0u32, subconditions_added(Conditions::vs), Seq::<(Seq<char>, Seq<char>)>::empty()),
        ("こぬ"@, "くる"@, 0u32, subconditions_added(Conditions::vk), Seq::<(Seq<char>, Seq<char>)>::empty()),
        ("来ぬ"@, "来る"@, 0u32, subconditions_added(Conditions::vk), Seq::<(Seq<char>, Seq<char>)>::empty()),
        ("來ぬ"@, "來る"@, 0u32, subconditions_added(Conditions::vk), Seq::<(Seq<char>, Seq<char>)>::empty()),
    ]
}

#[verifier::rlimit(60)]
proof fn lemma_rules_15_ok()
    ensures
        forall|i: int| 0 <= i < rules_15().len() ==> #[trigger] rule_view_ok(rules_15()[i]),
        forall|i: int| 0 <= i < rules_15().len() ==> #[trigger] keeps_godan_rows(rules_15()[i]),
{
    reveal(rules_15);
    reveal_strlit("ぬ");
    lemma_utf8_size_bound("ぬ"@);
    reveal_strlit("る");
    lemma_utf8_size_bound("る"@);
    reveal_strlit("かぬ");
    lemma_utf8_size_bound("かぬ"@);
    reveal_strlit("く");
    lemma_utf8_size_bound("く"@);
    reveal_strlit("がぬ");
    lemma_utf8_size_bound("がぬ"@);
    reveal_strlit("ぐ");
    lemma_utf8_size_bound("ぐ"@);
    reveal_strlit("さぬ");
    lemma_utf8_size_bound("さぬ"@);
    reveal_strlit("す");
    lemma_utf8_size_bound("す"@);
    reveal_strlit("たぬ");
    lemma_utf8_size_bound("たぬ"@);
    reveal_strlit("つ");
    lemma_utf8_size_bound("つ"@);
    reveal_strlit("なぬ");
    lemma_utf8_size_bound("なぬ"@);
    reveal_strlit("ばぬ");
    lemma_utf8_size_bound("ばぬ"@);
    reveal_strlit("ぶ");
    lemma_utf8_size_bound("ぶ"@);
    reveal_strlit("まぬ");
    lemma_utf8_size_bound("まぬ"@);
    reveal_strlit("む");
    lemma_utf8_size_bound("む"@);
    reveal_strlit("らぬ");
    lemma_utf8_size_bound("らぬ"@);
    reveal_strlit("わぬ");
    lemma_utf8_size_bound("わぬ"@);
    reveal_strlit("う");
    lemma_utf8_size_bound("う"@);
    reveal_strlit("ぜぬ");
    lemma_utf8_size_bound("ぜぬ"@);
    reveal_strlit("ずる");
    lemma_utf8_size_bound("ずる"@);
    reveal_strlit("せぬ");
    lemma_utf8_size_bound("せぬ"@);
    reveal_strlit("する");
    lemma_utf8_size_bound("する"@);
    reveal_strlit("為ぬ");
    lemma_utf8_size_bound("為ぬ"@);
    reveal_strlit("為る");
    lemma_utf8_size_bound("為る"@);
    reveal_strlit("こぬ");
    lemma_utf8_size_bound("こぬ"@);
    reveal_strlit("くる");
    lemma_utf8_size_bound("くる"@);
    reveal_strlit("来ぬ");
    lemma_utf8_size_bound("来ぬ"@);
    reveal_strlit("来る");
    lemma_utf8_size_bound("来る"@);
    reveal_strlit("來ぬ");
    lemma_utf8_size_bound("來ぬ"@);
    reveal_strlit("來る");
    lemma_utf8_size_bound("來る"@);
}

fn transform_15() -> (r: Transform)
    ensures
        rules_view(r.rules@) == rules_15(),
{
    let mut rules: Vec<Inflection> = Vec::new();
    rules.push(suffix_inflection("ぬ", "る", 0, Conditions(Conditions::v1).with_subconditions()));
    rules.push(suffix_inflection("かぬ", "く", 0, Conditions(Conditions::v5).with_subconditions()));
    rules.push(suffix_inflection("がぬ", "ぐ", 0, Conditions(Conditions::v5).with_subconditions()));
    rules.push(suffix_inflection("さぬ", "す", 0, Conditions(Conditions::v5).with_subconditions()));
    rules.push(suffix_inflection("たぬ", "つ", 0, Conditions(Conditions::v5).with_subconditions()));
    rules.push(suffix_inflection("なぬ", "ぬ", 0, Conditions(Conditions::v5).with_subconditions()));
    rules.push(suffix_inflection("ばぬ", "ぶ", 0, Conditions(Conditions::v5).with_subconditions()));
    rules.push(suffix_inflection("まぬ", "む", 0, Conditions(Conditions::v5).with_subconditions()));
    rules.push(suffix_inflection("らぬ", "る", 0, Conditions(Conditions::v5).with_subconditions()));
    rules.push(suffix_inflection("わぬ", "う", 0, Conditions(Conditions::v5).with_subconditions()));
    rules.push(suffix_inflection("ぜぬ", "ずる", 0, Conditions(Conditions::vz).with_subconditions()));
    rules.push(suffix_inflection("せぬ", "する", 0, Conditions(Conditions::vs).with_subconditions()));
    rules.push(suffix_inflection("為ぬ", "為る", 0, Conditions(Conditions::vs).with_subconditions()));
    rules.push(suffix_inflection("こぬ", "くる", 0, Conditions(Conditions::vk).with_subconditions()));
    rules.push(suffix_inflection("来ぬ", "来る", 0, Conditions(Conditions::vk).with_subconditions()));
    rules.push(suffix_inflection("來ぬ", "來る", 0, Conditions(Conditions::vk).with_subconditions()));
    proof {
        reveal(rules_15);
        assert(rules_view(rules@) =~~= rules_15());
    }
    Transform { name: "-ぬ", description: "Negative form of verbs.\n\nUsage: Attach ぬ to the irrealis form (未然形) of verbs.\n\nIrregularities: する becomes せぬ.\n", rules }
}

/// The rules of `-ん`: ending, replacement, conditions in and out,
/// and endings rewritten first.
#[verifier::opaque]
pub open spec fn rules_16() -> Seq<RuleView> {
    seq![
        ("ん"@, "る"@, subconditions_added(Conditions::n), subconditions_added(Conditions::v1), Seq::<(Seq<char>, Seq<char>)>::empty()),
        ("かん"@, "く"@, subconditions_added(Conditions::n), subconditions_added(Conditions::v5), Seq::<(Seq<char>, Seq<char>)>::empty()),
        ("がん"@, "ぐ"@, subconditions_added(Conditions::n), subconditions_added(Conditions::v5), Seq::<(Seq<char>, Seq<char>)>::empty()),
        ("さん"@, "す"@, subconditions_added(Conditions::n), subconditions_added(Conditions::v5), Seq::<(Seq<char>, Seq<char>)>::empty()),
        ("たん"@, "つ"@, subconditions_added(Conditions::n), subconditions_added(Conditions::v5), Seq::<(Seq<char>, Seq<char>)>::empty()),
        ("なん"@, "ぬ"@, subconditions_added(Conditions::n), subconditions_added(Conditions::v5), Seq::<(Seq<char>, Seq<char>)>::empty()),
        ("ばん"@, "ぶ"@, subconditions_added(Conditions::n), subconditions_added(Conditions::v5), Seq::<(Seq<char>, Seq<char>)>::empty()),
        ("まん"@, "む"@, subconditions_added(Conditions::n), subconditions_added(Conditions::v5), Seq::<(Seq<char>, Seq<char>)>::empty()),
        ("らん"@, "る"@, subconditions_added(Conditions::n), subconditions_added(Conditions::v5), Seq::<(Seq<char>, Seq<char>)>::empty()),
        ("わん"@, "う"@, subconditions_added(Conditions::n), subconditions_added(Conditions::v5), Seq::<(Seq<char>, Seq<char>)>::empty()),
        ("ぜん"@, "ずる"@, subconditions_added(Conditions::n), subconditions_added(Conditions::vz), Seq::<(Seq<char>, Seq<char>)>::empty()),
        ("せん"@, "する"@, subconditions_added(Conditions::n), subconditions_added(Conditions::vs), Seq::<(Seq<char>, Seq<char>)>::empty()),
        ("為ん"@, "為る"@, subconditions_added(Conditions::n), subconditions_added(Conditions::vs), Seq::<(Seq<char>, Seq<char>)>::empty()),
        ("こん"@, "くる"@, subconditions_added(Conditions::n), subconditions_added(Conditions::vk), Seq::<(Seq<char>, Seq<char>)>::empty()),
        ("来ん"@, "来る"@, subconditions_added(Conditions::n), subconditions_added(Conditions::vk), Seq::<(Seq<char>, Seq<char>)>::empty()),
        ("來ん"@, "來る"@, subconditions_added(Conditions::n), subconditions_added(Conditions::vk), Seq::<(Seq<char>, Seq<char>)>::empty()),
    ]
}

#[verifier::rlimit(60)]
proof fn lemma_rules_16_ok()
    ensures
        forall|i: int| 0 <= i < rules_16().len() ==> #[trigger] rule_view_ok(rules_16()[i]),
        forall|i: int| 0 <= i < rules_16().len() ==> #[trigger] keeps_godan_rows(rules_16()[i]),
{
    reveal(rules_16);
    reveal_strlit("ん");
    lemma_utf8_size_bound("ん"@);
    reveal_strlit("る");
    lemma_utf8_size_bound("る"@);
    reveal_strlit("かん");
    lemma_utf8_size_bound("かん"@);
    reveal_strlit("く");
    lemma_utf8_size_bound("く"@);
    reveal_strlit("がん");
    lemma_utf8_size_bound("がん"@);
    reveal_strlit("ぐ");
    lemma_utf8_size_bound("ぐ"@);
    reveal_strlit("さん");
    lemma_utf8_size_bound("さん"@);
    reveal_strlit("す");
    lemma_utf8_size_bound("す"@);
    reveal_strlit("たん");
    lemma_utf8_size_bound("たん"@);
    reveal_strlit("つ");
    lemma_utf8_size_bound("つ"@);
    reveal_strlit("なん");
    lemma_utf8_size_bound("なん"@);
    reveal_strlit("ぬ");
    lemma_utf8_size_bound("ぬ"@);
    reveal_strlit("ばん");
    lemma_utf8_size_bound("ばん"@);
    reveal_strlit("ぶ");
    lemma_utf8_size_bound("ぶ"@);
    reveal_strlit("まん");
    lemma_utf8_size_bound("まん"@);
    reveal_strlit("む");
    lemma_utf8_size_bound("む"@);
    reveal_strlit("らん");
    lemma_utf8_size_bound("らん"@);
    reveal_strlit("わん");
    lemma_utf8_size_bound("わん"@);
    reveal_strlit("う");
    lemma_utf8_size_bound("う"@);
    reveal_strlit("ぜん");
    lemma_utf8_size_bound("ぜん"@);
    reveal_strlit("ずる");
    lemma_utf8_size_bound("ずる"@);
    reveal_strlit("せん");
    lemma_utf8_size_bound("せん"@);
    reveal_strlit("する");
    lemma_utf8_size_bound("する"@);
    reveal_strlit("為ん");
    lemma_utf8_size_bound("為ん"@);
    reveal_strlit("為る");
    lemma_utf8_size_bound("為る"@);
    reveal_strlit("こん");
    lemma_utf8_size_bound("こん"@);
    reveal_strlit("くる");
    lemma_utf8_size_bound("くる"@);
    reveal_strlit("来ん");
    lemma_utf8_size_bound("来ん"@);
    reveal_strlit("来る");
    lemma_utf8_size_bound("来る"@);
    reveal_strlit("來ん");
    lemma_utf8_size_bound("來ん"@);
    reveal_strlit("來る");
    lemma_utf8_size_bound("來る"@);
}

fn transform_16() -> (r: Transform)
    ensures
        rules_view(r.rules@) == rules_16(),
{
    let mut rules: Vec<Inflection> = Vec::new();
    rules.push(suffix_inflection("ん", "る", Conditions(Conditions::n).with_subconditions(), Conditions(Conditions::v1).with_subconditions()));
    rules.push(suffix_inflection("かん", "く", Conditions(Conditions::n).with_subconditions(), Conditions(Conditions::v5).with_subconditions()));
    rules.push(suffix_inflection("がん", "ぐ", Conditions(Conditions::n).with_subconditions(), Conditions(Conditions::v5).with_subconditions()));
    rules.push(suffix_inflection("さん", "す", Conditions(Conditions::n).with_subconditions(), Conditions(Conditions::v5).with_subconditions()));
    rules.push(suffix_inflection("たん", "つ", Conditions(Conditions::n).with_subconditions(), Conditions(Conditions::v5).with_subconditions()));
    rules.push(suffix_inflection("なん", "ぬ", Conditions(Conditions::n).with_subconditions(), Conditions(Conditions::v5).with_subconditions()));
    rules.push(suffix_inflection("ばん", "ぶ", Conditions(Conditions::n).with_subconditions(), Conditions(Conditions::v5).with_subconditions()));
    rules.push(suffix_inflection("まん", "む", Conditions(Conditions::n).with_subconditions(), Conditions(Conditions::v5).with_subconditions()));
    rules.push(suffix_inflection("らん", "る", Conditions(Conditions::n).with_subconditions(), Conditions(Conditions::v5).with_subconditions()));
    rules.push(suffix_inflection("わん", "う", Conditions(Conditions::n).with_subconditions(), Conditions(Conditions::v5).with_subconditions()));
    rules.push(suffix_inflection("ぜん", "ずる", Conditions(Conditions::n).with_subconditions(), Conditions(Conditions::vz).with_subconditions()));
    rules.push(suffix_inflection("せん", "する", Conditions(Conditions::n).with_subconditions(), Conditions(Conditions::vs).with_subconditions()));
    rules.push(suffix_inflection("為ん", "為る", Conditions(Conditions::n).with_subconditions(), Conditions(Conditions::vs).with_subconditions()));
    rules.push(suffix_inflection("こん", "くる", Conditions(Conditions::n).with_subconditions(), Conditions(Conditions::vk).with_subconditions()));
    rules.push(suffix_inflection("来ん", "来る", Conditions(Conditions::n).with_subconditions(), Conditions(Conditions::vk).with_subconditions()));
    rules.push(suffix_inflection("來ん", "來る", Conditions(Conditions::n).with_subconditions(), Conditions(Conditions::vk).with_subconditions()));
    proof {
        reveal(rules_16);
        assert(rules_view(rules@) =~~= rules_16());
    }
    Transform { name: "-ん", description: "Negative form of verbs; a sound change of ぬ.\n\nUsage: Attach ん to the irrealis form (未然形) of verbs.\n\nIrregularities: する becomes せん.\n", rules }
}

/// The rules of `-んばかり`: ending, replacement, conditions in and out,
/// and endings rewritten first.
#[verifier::opaque]
pub open spec fn rules_17() -> Seq<RuleView> {
    seq![
        ("んばかり"@, "る"@, 0u32, subconditions_added(Conditions::v1), Seq::<(Seq<char>, Seq<char>)>::empty()),
        ("かんばかり"@, "く"@, 0u32, subconditions_added(Conditions::v5), Seq::<(Seq<char>, Seq<char>)>::empty()),
        ("がんばかり"@, "ぐ"@, 0u32, subconditions_added(Conditions::v5), Seq::<(Seq<char>, Seq<char>)>::empty()),
        ("さんばかり"@, "す"@, 0u32, subconditions_added(Conditions::v5), Seq::<(Seq<char>, Seq<char>)>::empty()),
        ("たんばかり"@, "つ"@, 0u32, subconditions_added(Conditions::v5), Seq::<(Seq<char>, Seq<char>)>::empty()),
        ("なんばかり"@, "ぬ"@, 0u32, subconditions_added(Conditions::v5), Seq::<(Seq<char>, Seq<char>)>::empty()),
        ("ばんばかり"@, "ぶ"@, 0u32, subconditions_added(Conditions::v5), Seq::<(Seq<char>, Seq<char>)>::empty()),
        ("まんばかり"@, "む"@, 0u32, subconditions_added(Conditions::v5), Seq::<(Seq<char>, Seq<char>)>::empty()),
        ("らんばかり"@, "る"@, 0u32, subconditions_added(Conditions::v5), Seq::<(Seq<char>, Seq<char>)>::empty()),
        ("わんばかり"@, "う"@, 0u32, subconditions_added(Conditions::v5), Seq::<(Seq<char>, Seq<char>)>::empty()),
        ("ぜんばかり"@, "ずる"@, 0u32, subconditions_added(Conditions::vz), Seq::<(Seq<char>, Seq<char>)>::empty()),
        ("せんばかり"@, "する"@, 0u32, subconditions_added(Conditions::vs), Seq::<(Seq<char>, Seq<char>)>::empty()),
        ("為んばかり"@, "為る"@, 0u32, subconditions_added(Conditions::vs), Seq::<(Seq<char>, Seq<char>)>::empty()),
        ("こんばかり"@, "くる"@, 0u32, subconditions_added(Conditions::vk), Seq::<(Seq<char>, Seq<char>)>::empty()),
        ("来んばかり"@, "来る"@, 0u32, subconditions_added(Conditions::vk), Seq::<(Seq<char>, Seq<char>)>::empty()),
        ("來んばかり"@, "來る"@, 0u32, subconditions_added(Conditions::vk), Seq::<(Seq<char>, Seq<char>)>::empty()),
    ]
}

#[verifier::rlimit(60)]
proof fn lemma_rules_17_ok()
    ensures
        forall|i: int| 0 <= i < rules_17().len() ==> #[trigger] rule_view_ok(rules_17()[i]),
        forall|i: int| 0 <= i < rules_17().len() ==> #[trigger] keeps_godan_rows(rules_17()[i]),
{
    reveal(rules_17);
    reveal_strlit("んばかり");
    lemma_utf8_size_bound("んばかり"@);
    reveal_strlit("る");
    lemma_utf8_size_bound("る"@);
    reveal_strlit("かんばかり");
    lemma_utf8_size_bound("かんばかり"@);
    reveal_strlit("く");
    lemma_utf8_size_bound("く"@);
    reveal_strlit("がんばかり");
    lemma_utf8_size_bound("がんばかり"@);
    reveal_strlit("ぐ");
    lemma_utf8_size_bound("ぐ"@);
    reveal_strlit("さんばかり");
    lemma_utf8_size_bound("さんばかり"@);
    reveal_strlit("す");
    lemma_utf8_size_bound("す"@);
    reveal_strlit("たんばかり");
    lemma_utf8_size_bound("たんばかり"@);
    reveal_strlit("つ");
    lemma_utf8_size_bound("つ"@);
    reveal_strlit("なんばかり");
    lemma_utf8_size_bound("なんばかり"@);
    reveal_strlit("ぬ");
    lemma_utf8_size_bound("ぬ"@);
    reveal_strlit("ばんばかり");
    lemma_utf8_size_bound("ばんばかり"@);
    reveal_strlit("ぶ");
    lemma_utf8_size_bound("ぶ"@);
    reveal_strlit("まんばかり");
    lemma_utf8_size_bound("まんばかり"@);
    reveal_strlit("む");
    lemma_utf8_size_bound("む"@);
    reveal_strlit("らんばかり");
    lemma_utf8_size_bound("らんばかり"@);
    reveal_strlit("わんばかり");
    lemma_utf8_size_bound("わんばかり"@);
    reveal_strlit("う");
    lemma_utf8_size_bound("う"@);
    reveal_strlit("ぜんばかり");
    lemma_utf8_size_bound("ぜんばかり"@);
    reveal_strlit("ずる");
    lemma_utf8_size_bound("ずる"@);
    reveal_strlit("せんばかり");
    lemma_utf8_size_bound("せんばかり"@);
    reveal_strlit("する");
    lemma_utf8_size_bound("する"@);
    reveal_strlit("為んばかり");
    lemma_utf8_size_bound("為んばかり"@);
    reveal_strlit("為る");
    lemma_utf8_size_bound("為る"@);
    reveal_strlit("こんばかり");
    lemma_utf8_size_bound("こんばかり"@);
    reveal_strlit("くる");
    lemma_utf8_size_bound("くる"@);
    reveal_strlit("来んばかり");
    lemma_utf8_size_bound("来んばかり"@);
    reveal_strlit("来る");
    lemma_utf8_size_bound("来る"@);
    reveal_strlit("來んばかり");
    lemma_utf8_size_bound("來んばかり"@);
    reveal_strlit("來る");
    lemma_utf8_size_bound("來る"@);
}

fn transform_17() -> (r: Transform)
    ensures
        rules_view(r.rules@) == rules_17(),
{
    let mut rules: Vec<Inflection> = Vec::new();
    rules.push(suffix_inflection("んばかり", "る", 0, Conditions(Conditions::v1).with_subconditions()));
    rules.push(suffix_inflection("かんばかり", "く", 0, Conditions(Conditions::v5).with_subconditions()));
    rules.push(suffix_inflection("がんばかり", "ぐ", 0, Conditions(Conditions::v5).with_subconditions()));
    rules.push(suffix_inflection("さんばかり", "す", 0, Conditions(Conditions::v5).with_subconditions()));
    rules.push(suffix_inflection("たんばかり", "つ", 0, Conditions(Conditions::v5).with_subconditions()));
    rules.push(suffix_inflection("なんばかり", "ぬ", 0, Conditions(Conditions::v5).with_subconditions()));
    rules.push(suffix_inflection("ばんばかり", "ぶ", 0, Conditions(Conditions::v5).with_subconditions()));
    rules.push(suffix_inflection("まんばかり", "む", 0, Conditions(Conditions::v5).with_subconditions()));
    rules.push(suffix_inflection("らんばかり", "る", 0, Conditions(Conditions::v5).with_subconditions()));
    rules.push(suffix_inflection("わんばかり", "う", 0, Conditions(Conditions::v5).with_subconditions()));
    rules.push(suffix_inflection("ぜんばかり", "ずる", 0, Conditions(Conditions::vz).with_subconditions()));
    rules.push(suffix_inflection("せんばかり", "する", 0, Conditions(Conditions::vs).with_subconditions()));
    rules.push(suffix_inflection("為んばかり", "為る", 0, Conditions(Conditions::vs).with_subconditions()));
    rules.push(suffix_inflection("こんばかり", "くる", 0, Conditions(Conditions::vk).with_subconditions()));
    rules.push(suffix_inflection("来んばかり", "来る", 0, Conditions(Conditions::vk).with_subconditions()));
    rules.push(suffix_inflection("來んばかり", "來る", 0, Conditions(Conditions::vk).with_subconditions()));
    proof {
        reveal(rules_17);
        assert(rules_view(rules@) =~~= rules_17());
    }
    Transform { name: "-んばかり", description: "Shows an action or condition is on the verge of occurring, or an excessive/extreme degree.\n\nUsage: Attach んばかり to the irrealis form (未然形) of verbs.\n\nIrregularities: する becomes せんばかり\n", rules }
}

/// The rules of `-んとする`: ending, replacement, conditions in and out,
/// and endings rewritten first.
#[verifier::opaque]
pub open spec fn rules_18() -> Seq<RuleView> {
    seq![
        ("んとする"@, "る"@, subconditions_added(Conditions::vs), subconditions_added(Conditions::v1), Seq::<(Seq<char>, Seq<char>)>::empty()),
        ("かんとする"@, "く"@, subconditions_added(Conditions::vs), subconditions_added(Conditions::v5), Seq::<(Seq<char>, Seq<char>)>::empty()),
        ("がんとする"@, "ぐ"@, subconditions_added(Conditions::vs), subconditions_added(Conditions::v5), Seq::<(Seq<char>, Seq<char>)>::empty()),
        ("さんとする"@, "す"@, subconditions_added(Conditions::vs), subconditions_added(Conditions::v5), Seq::<(Seq<char>, Seq<char>)>::empty()),
        ("たんとする"@, "つ"@, subconditions_added(Conditions::vs), subconditions_added(Conditions::v5), Seq::<(Seq<char>, Seq<char>)>::empty()),
        ("なんとする"@, "ぬ"@, subconditions_added(Conditions::vs), subconditions_added(Conditions::v5), Seq::<(Seq<char>, Seq<char>)>::empty()),
        ("ばんとする"@, "ぶ"@, subconditions_added(Conditions::vs), subconditions_added(Conditions::v5), Seq::<(Seq<char>, Seq<char>)>::empty()),
        ("まんとする"@, "む"@, subconditions_added(Conditions::vs), subconditions_added(Conditions::v5), Seq::<(Seq<char>, Seq<char>)>::empty()),
        ("らんとする"@, "る"@, subconditions_added(Conditions::vs), subconditions_added(Conditions::v5), Seq::<(Seq<char>, Seq<char>)>::empty()),
        ("わんとする"@, "う"@, subconditions_added(Conditions::vs), subconditions_added(Conditions::v5), Seq::<(Seq<char>, Seq<char>)>::empty()),
        ("ぜんとする"@, "ずる"@, subconditions_added(Conditions::vs), subconditions_added(Conditions::vz), Seq::<(Seq<char>, Seq<char>)>::empty()),
        ("せんとする"@, "する"@, subconditions_added(Conditions::vs), subconditions_added(Conditions::vs), Seq::<(Seq<char>, Seq<char>)>::empty()),
        ("為んとする"@, "為る"@, subconditions_added(Conditions::vs), subconditions_added(Conditions::vs), Seq::<(Seq<char>, Seq<char>)>::empty()),
        ("こんとする"@, "くる"@, subconditions_added(Conditions::vs), subconditions_added(Conditions::vk), Seq::<(Seq<char>, Seq<char>)>::empty()),
        ("来んとする"@, "来る"@, subconditions_added(Conditions::vs), subconditions_added(Conditions::vk), Seq::<(Seq<char>, Seq<char>)>::empty()),
        ("來んとする"@, "來る"@, subconditions_added(Conditions::vs), subconditions_added(Conditions::vk), Seq::<(Seq<char>, Seq<char>)>::empty()),
    ]
}

#[verifier::rlimit(60)]
proof fn lemma_rules_18_ok()
    ensures
        forall|i: int| 0 <= i < rules_18().len() ==> #[trigger] rule_view_ok(rules_18()[i]),
        forall|i: int| 0 <= i < rules_18().len() ==> #[trigger] keeps_godan_rows(rules_18()[i]),
{
    reveal(rules_18);
    reveal_strlit("んとする");
    lemma_utf8_size_bound("んとする"@);
    reveal_strlit("る");
    lemma_utf8_size_bound("る"@);
    reveal_strlit("かんとする");
    lemma_utf8_size_bound("かんとする"@);
    reveal_strlit("く");
    lemma_utf8_size_bound("く"@);
    reveal_strlit("がんとする");
    lemma_utf8_size_bound("がんとする"@);
    reveal_strlit("ぐ");
    lemma_utf8_size_bound("ぐ"@);
    reveal_strlit("さんとする");
    lemma_utf8_size_bound("さんとする"@);
    reveal_strlit("す");
    lemma_utf8_size_bound("す"@);
    reveal_strlit("たんとする");
    lemma_utf8_size_bound("たんとする"@);
    reveal_strlit("つ");
    lemma_utf8_size_bound("つ"@);
    reveal_strlit("なんとする");
    lemma_utf8_size_bound("なんとする"@);
    reveal_strlit("ぬ");
    lemma_utf8_size_bound("ぬ"@);
    reveal_strlit("ばんとする");
    lemma_utf8_size_bound("ばんとする"@);
    reveal_strlit("ぶ");
    lemma_utf8_size_bound("ぶ"@);
    reveal_strlit("まんとする");
    lemma_utf8_size_bound("まんとする"@);
    reveal_strlit("む");
    lemma_utf8_size_bound("む"@);
    reveal_strlit("らんとする");
    lemma_utf8_size_bound("らんとする"@);
    reveal_strlit("わんとする");
    lemma_utf8_size_bound("わんとする"@);
    reveal_strlit("う");
    lemma_utf8_size_bound("う"@);
    reveal_strlit("ぜんとする");
    lemma_utf8_size_bound("ぜんとする"@);
    reveal_strlit("ずる");
    lemma_utf8_size_bound("ずる"@);
    reveal_strlit("せんとする");
    lemma_utf8_size_bound("せんとする"@);
    reveal_strlit("する");
    lemma_utf8_size_bound("する"@);
    reveal_strlit("為んとする");
    lemma_utf8_size_bound("為んとする"@);
    reveal_strlit("為る");
    lemma_utf8_size_bound("為る"@);
    reveal_strlit("こんとする");
    lemma_utf8_size_bound("こんとする"@);
    reveal_strlit("くる");
    lemma_utf8_size_bound("くる"@);
    reveal_strlit("来んとする");
    lemma_utf8_size_bound("来んとする"@);
    reveal_strlit("来る");
    lemma_utf8_size_bound("来る"@);
    reveal_strlit("來んとする");
    lemma_utf8_size_bound("來んとする"@);
    reveal_strlit("來る");
    lemma_utf8_size_bound("來る"@);
}

fn transform_18() -> (r: Transform)
    ensures
        rules_view(r.rules@) == rules_18(),
{
    let mut rules: Vec<Inflection> = Vec::new();
    rules.push(suffix_inflection("んとする", "る", Conditions(Conditions::vs).with_subconditions(), Conditions(Conditions::v1).with_subconditions()));
    rules.push(suffix_inflection("かんとする", "く", Conditions(Conditions::vs).with_subconditions(), Conditions(Conditions::v5).with_subconditions()));
    rules.push(suffix_inflection("がんとする", "ぐ", Conditions(Conditions::vs).with_subconditions(), Conditions(Conditions::v5).with_subconditions()));
    rules.push(suffix_inflection("さんとする", "す", Conditions(Conditions::vs).with_subconditions(), Conditions(Conditions::v5).with_subconditions()));
    rules.push(suffix_inflection("たんとする", "つ", Conditions(Conditions::vs).with_subconditions(), Conditions(Conditions::v5).with_subconditions()));
    rules.push(suffix_inflection("なんとする", "ぬ", Conditions(Conditions::vs).with_subconditions(), Conditions(Conditions::v5).with_subconditions()));
    rules.push(suffix_inflection("ばんとする", "ぶ", Conditions(Conditions::vs).with_subconditions(), Conditions(Conditions::v5).with_subconditions()));
    rules.push(suffix_inflection("まんとする", "む", Conditions(Conditions::vs).with_subconditions(), Conditions(Conditions::v5).with_subconditions()));
    rules.push(suffix_inflection("らんとする", "る", Conditions(Conditions::vs).with_subconditions(), Conditions(Conditions::v5).with_subconditions()));
    rules.push(suffix_inflection("わんとする", "う", Conditions(Conditions::vs).with_subconditions(), Conditions(Conditions::v5).with_subconditions()));
    rules.push(suffix_inflection("ぜんとする", "ずる", Conditions(Conditions::vs).with_subconditions(), Conditions(Conditions::vz).with_subconditions()));
    rules.push(suffix_inflection("せんとする", "する", Conditions(Conditions::vs).with_subconditions(), Conditions(Conditions::vs).with_subconditions()));
    rules.push(suffix_inflection("為んとする", "為る", Conditions(Conditions::vs).with_subconditions(), Conditions(Conditions::vs).with_subconditions()));
    rules.push(suffix_inflection("こんとする", "くる", Conditions(Conditions::vs).with_subconditions(), Conditions(Conditions::vk).with_subconditions()));
    rules.push(suffix_inflection("来んとする", "来る", Conditions(Conditions::vs).with_subconditions(), Conditions(Conditions::vk).with_subconditions()));
    rules.push(suffix_inflection("來んとする", "來る", Conditions(Conditions::vs).with_subconditions(), Conditions(Conditions::vk).with_subconditions()));
    proof {
        reveal(rules_18);
        assert(rules_view(rules@) =~~= rules_18());
    }
    Transform { name: "-んとする", description: "1. Shows the speaker\\'s will or intention.\n2. Shows an action or condition is on the verge of occurring.\n\nUsage: Attach んとする to the irrealis form (未然形) of verbs.\n\nIrregularities: する becomes せんとする\n", rules }
}

/// The rules of `-む`: ending, replacement, conditions in and out,
/// and endings rewritten first.
#[verifier::opaque]
pub open spec fn rules_19() -> Seq<RuleView> {
    seq![
        ("む"@, "る"@, 0u32, subconditions_added(Conditions::v1), Seq::<(Seq<char>, Seq<char>)>::empty()),
        ("かむ"@, "く"@, 0u32, subconditions_added(Conditions::v5), Seq::<(Seq<char>, Seq<char>)>::empty()),
        ("がむ"@, "ぐ"@, 0u32, subconditions_added(Conditions::v5), Seq::<(Seq<char>, Seq<char>)>::empty()),
        ("さむ"@, "す"@, 0u32, subconditions_added(Conditions::v5), Seq::<(Seq<char>, Seq<char>)>::empty()),
        ("たむ"@, "つ"@, 0u32, subconditions_added(Conditions::v5), Seq::<(Seq<char>, Seq<char>)>::empty()),
        ("なむ"@, "ぬ"@, 0u32, subconditions_added(Conditions::v5), Seq::<(Seq<char>, Seq<char>)>::empty()),
        ("ばむ"@, "ぶ"@, 0u32, subconditions_added(Conditions::v5), Seq::<(Seq<char>, Seq<char>)>::empty()),
        ("まむ"@, "む"@, 0u32, subconditions_added(Conditions::v5), Seq::<(Seq<char>, Seq<char>)>::empty()),
        ("らむ"@, "る"@, 0u32, subconditions_added(Conditions::v5), Seq::<(Seq<char>, Seq<char>)>::empty()),
        ("わむ"@, "う"@, 0u32, subconditions_added(Conditions::v5), Seq::<(Seq<char>, Seq<char>)>::empty()),
        ("ぜむ"@, "ずる"@, 0u32, subconditions_added(Conditions::vz), Seq::<(Seq<char>, Seq<char>)>::empty()),
        ("せむ"@, "する"@, 0u32, subconditions_added(Conditions::vs), Seq::<(Seq<char>, Seq<char>)>::empty()),
        ("為む"@, "為る"@, 0u32, subconditions_added(Conditions::vs), Seq::<(Seq<char>, Seq<char>)>::empty()),
        ("こむ"@, "くる"@, 0u32, subconditions_added(Conditions::vk), Seq::<(Seq<char>, Seq<char>)>::empty()),
        ("来む"@, "来る"@, 0u32, subconditions_added(Conditions::vk), Seq::<(Seq<char>, Seq<char>)>::empty()),
        ("來む"@, "來る"@, 0u32, subconditions_added(Conditions::vk), Seq::<(Seq<char>, Seq<char>)>::empty()),
    ]
}

#[verifier::rlimit(60)]
proof fn lemma_rules_19_ok()
    ensures
        forall|i: int| 0 <= i < rules_19().len() ==> #[trigger] rule_view_ok(rules_19()[i]),
        forall|i: int| 0 <= i < rules_19().len() ==> #[trigger] keeps_godan_rows(rules_19()[i]),
{
    reveal(rules_19);
    reveal_strlit("む");
    lemma_utf8_size_bound("む"@);
    reveal_strlit("る");
    lemma_utf8_size_bound("る"@);
    reveal_strlit("かむ");
    lemma_utf8_size_bound("かむ"@);
    reveal_strlit("く");
    lemma_utf8_size_bound("く"@);
    reveal_strlit("がむ");
    lemma_utf8_size_bound("がむ"@);
    reveal_strlit("ぐ");
    lemma_utf8_size_bound("ぐ"@);
    reveal_strlit("さむ");
    lemma_utf8_size_bound("さむ"@);
    reveal_strlit("す");
    lemma_utf8_size_bound("す"@);
    reveal_strlit("たむ");
    lemma_utf8_size_bound("たむ"@);
    reveal_strlit("つ");
    lemma_utf8_size_bound("つ"@);
    reveal_strlit("なむ");
    lemma_utf8_size_bound("なむ"@);
    reveal_strlit("ぬ");
    lemma_utf8_size_bound("ぬ"@);
    reveal_strlit("ばむ");
    lemma_utf8_size_bound("ばむ"@);
    reveal_strlit("ぶ");
    lemma_utf8_size_bound("ぶ"@);
    reveal_strlit("まむ");
    lemma_utf8_size_bound("まむ"@);
    reveal_strlit("らむ");
    lemma_utf8_size_bound("らむ"@);
    reveal_strlit("わむ");
    lemma_utf8_size_bound("わむ"@);
    reveal_strlit("う");
    lemma_utf8_size_bound("う"@);
    reveal_strlit("ぜむ");
    lemma_utf8_size_bound("ぜむ"@);
    reveal_strlit("ずる");
    lemma_utf8_size_bound("ずる"@);
    reveal_strlit("せむ");
    lemma_utf8_size_bound("せむ"@);
    reveal_strlit("する");
    lemma_utf8_size_bound("する"@);
    reveal_strlit("為む");
    lemma_utf8_size_bound("為む"@);
    reveal_strlit("為る");
    lemma_utf8_size_bound("為る"@);
    reveal_strlit("こむ");
    lemma_utf8_size_bound("こむ"@);
    reveal_strlit("くる");
    lemma_utf8_size_bound("くる"@);
    reveal_strlit("来む");
    lemma_utf8_size_bound("来む"@);
    reveal_strlit("来る");
    lemma_utf8_size_bound("来る"@);
    reveal_strlit("來む");
    lemma_utf8_size_bound("來む"@);
    reveal_strlit("來る");
    lemma_utf8_size_bound("來る"@);
}

fn transform_19() -> (r: Transform)
    ensures
        rules_view(r.rules@) == rules_19(),
{
    let mut rules: Vec<Inflection> = Vec::new();
    rules.push(suffix_inflection("む", "る", 0, Conditions(Conditions::v1).with_subconditions()));
    rules.push(suffix_inflection("かむ", "く", 0, Conditions(Conditions::v5).with_subconditions()));
    rules.push(suffix_inflection("がむ", "ぐ", 0, Conditions(Conditions::v5).with_subconditions()));
    rules.push(suffix_inflection("さむ", "す", 0, Conditions(Conditions::v5).with_subconditions()));
    rules.push(suffix_inflection("たむ", "つ", 0, Conditions(Conditions::v5).with_subconditions()));
    rules.push(suffix_inflection("なむ", "ぬ", 0, Conditions(Conditions::v5).with_subconditions()));
    rules.push(suffix_inflection("ばむ", "ぶ", 0, Conditions(Conditions::v5).with_subconditions()));
    rules.push(suffix_inflection("まむ", "む", 0, Conditions(Conditions::v5).with_subconditions()));
    rules.push(suffix_inflection("らむ", "る", 0, Conditions(Conditions::v5).with_subconditions()));
    rules.push(suffix_inflection("わむ", "う", 0, Conditions(Conditions::v5).with_subconditions()));
    rules.push(suffix_inflection("ぜむ", "ずる", 0, Conditions(Conditions::vz).with_subconditions()));
    rules.push(suffix_inflection("せむ", "する", 0, Conditions(Conditions::vs).with_subconditions()));
    rules.push(suffix_inflection("為む", "為る", 0, Conditions(Conditions::vs).with_subconditions()));
    rules.push(suffix_inflection("こむ", "くる", 0, Conditions(Conditions::vk).with_subconditions()));
    rules.push(suffix_inflection("来む", "来る", 0, Conditions(Conditions::vk).with_subconditions()));
    rules.push(suffix_inflection("來む", "來る", 0, Conditions(Conditions::vk).with_subconditions()));
    proof {
        reveal(rules_19);
        assert(rules_view(rules@) =~~= rules_19());
    }
    Transform { name: "-む", description: "Archaic.\n1. Shows an inference of a certain matter.\n2. Shows speaker's intention.\n\nUsage: Attach む to the irrealis form (未然形) of verbs.\n\nIrregularities: する becomes せむ\n", rules }
}

/// The rules of `-ざる`: ending, replacement, conditions in and out,
/// and endings rewritten first.
#[verifier::opaque]
pub open spec fn rules_20() -> Seq<RuleView> {
    seq![
        ("ざる"@, "る"@, 0u32, subconditions_added(Conditions::v1), Seq::<(Seq<char>, Seq<char>)>::empty()),
        ("かざる"@, "く"@, 0u32, subconditions_added(Conditions::v5), Seq::<(Seq<char>, Seq<char>)>::empty()),
        ("がざる"@, "ぐ"@, 0u32, subconditions_added(Conditions::v5), Seq::<(Seq<char>, Seq<char>)>::empty()),
        ("さざる"@, "す"@, 0u32, subconditions_added(Conditions::v5), Seq::<(Seq<char>, Seq<char>)>::empty()),
        ("たざる"@, "つ"@, 0u32, subconditions_added(Conditions::v5), Seq::<(Seq<char>, Seq<char>)>::empty()),
        ("なざる"@, "ぬ"@, 0u32, subconditions_added(Conditions::v5), Seq::<(Seq<char>, Seq<char>)>::empty()),
        ("ばざる"@, "ぶ"@, 0u32, subconditions_added(Conditions::v5), Seq::<(Seq<char>, Seq<char>)>::empty()),
        ("まざる"@, "む"@, 0u32, subconditions_added(Conditions::v5), Seq::<(Seq<char>, Seq<char>)>::empty()),
        ("らざる"@, "る"@, 0u32, subconditions_added(Conditions::v5), Seq::<(Seq<char>, Seq<char>)>::empty()),
        ("わざる"@, "う"@, 0u32, subconditions_added(Conditions::v5), Seq::<(Seq<char>, Seq<char>)>::empty()),
        ("ぜざる"@, "ずる"@, 0u32, subconditions_added(Conditions::vz), Seq::<(Seq<char>, Seq<char>)>::empty()),
        ("せざる"@, "する"@, 0u32, subconditions_added(Conditions::vs), Seq::<(Seq<char>, Seq<char>)>::empty()),
        ("為ざる"@, "為る"@, 0u32, subconditions_added(Conditions::vs), Seq::<(Seq<char>, Seq<char>)>::empty()),
        ("こざる"@, "くる"@, 0u32, subconditions_added(Conditions::vk), Seq::<(Seq<char>, Seq<char>)>::empty()),
        ("来ざる"@, "来る"@, 0u32, subconditions_added(Conditions::vk), Seq::<(Seq<char>, Seq<char>)>::empty()),
        ("來ざる"@, "來る"@, 0u32, subconditions_added(Conditions::vk), Seq::<(Seq<char>, Seq<char>)>::empty()),
    ]
}

#[verifier::rlimit(60)]
proof fn lemma_rules_20_ok()
    ensures
        forall|i: int| 0 <= i < rules_20().len() ==> #[trigger] rule_view_ok(rules_20()[i]),
        forall|i: int| 0 <= i < rules_20().len() ==> #[trigger] keeps_godan_rows(rules_20()[i]),
{
    reveal(rules_20);
    reveal_strlit("ざる");
    lemma_utf8_size_bound("ざる"@);
    reveal_strlit("る");
    lemma_utf8_size_bound("る"@);
    reveal_strlit("かざる");
    lemma_utf8_size_bound("かざる"@);
    reveal_strlit("く");
    lemma_utf8_size_bound("く"@);
    reveal_strlit("がざる");
    lemma_utf8_size_bound("がざる"@);
    reveal_strlit("ぐ");
    lemma_utf8_size_bound("ぐ"@);
    reveal_strlit("さざる");
    lemma_utf8_size_bound("さざる"@);
    reveal_strlit("す");
    lemma_utf8_size_bound("す"@);
    reveal_strlit("たざる");
    lemma_utf8_size_bound("たざる"@);
    reveal_strlit("つ");
    lemma_utf8_size_bound("つ"@);
    reveal_strlit("なざる");
    lemma_utf8_size_bound("なざる"@);
    reveal_strlit("ぬ");
    lemma_utf8_size_bound("ぬ"@);
    reveal_strlit("ばざる");
    lemma_utf8_size_bound("ばざる"@);
    reveal_strlit("ぶ");
    lemma_utf8_size_bound("ぶ"@);
    reveal_strlit("まざる");
    lemma_utf8_size_bound("まざる"@);
    reveal_strlit("む");
    lemma_utf8_size_bound("む"@);
    reveal_strlit("らざる");
    lemma_utf8_size_bound("らざる"@);
    reveal_strlit("わざる");
    lemma_utf8_size_bound("わざる"@);
    reveal_strlit("う");
    lemma_utf8_size_bound("う"@);
    reveal_strlit("ぜざる");
    lemma_utf8_size_bound("ぜざる"@);
    reveal_strlit("ずる");
    lemma_utf8_size_bound("ずる"@);
    reveal_strlit("せざる");
    lemma_utf8_size_bound("せざる"@);
    reveal_strlit("する");
    lemma_utf8_size_bound("する"@);
    reveal_strlit("為ざる");
    lemma_utf8_size_bound("為ざる"@);
    reveal_strlit("為る");
    lemma_utf8_size_bound("為る"@);
    reveal_strlit("こざる");
    lemma_utf8_size_bound("こざる"@);
    reveal_strlit("くる");
    lemma_utf8_size_bound("くる"@);
    reveal_strlit("来ざる");
    lemma_utf8_size_bound("来ざる"@);
    reveal_strlit("来る");
    lemma_utf8_size_bound("来る"@);
    reveal_strlit("來ざる");
    lemma_utf8_size_bound("來ざる"@);
    reveal_strlit("來る");
    lemma_utf8_size_bound("來る"@);
}

fn transform_20() -> (r: Transform)
    ensures
        rules_view(r.rules@) == rules_20(),
{
    let mut rules: Vec<Inflection> = Vec::new();
    rules.push(suffix_inflection("ざる", "る", 0, Conditions(Conditions::v1).with_subconditions()));
    rules.push(suffix_inflection("かざる", "く", 0, Conditions(Conditions::v5).with_subconditions()));
    rules.push(suffix_inflection("がざる", "ぐ", 0, Conditions(Conditions::v5).with_subconditions()));
    rules.push(suffix_inflection("さざる", "す", 0, Conditions(Conditions::v5).with_subconditions()));
    rules.push(suffix_inflection("たざる", "つ", 0, Conditions(Conditions::v5).with_subconditions()));
    rules.push(suffix_inflection("なざる", "ぬ", 0, Conditions(Conditions::v5).with_subconditions()));
    rules.push(suffix_inflection("ばざる", "ぶ", 0, Conditions(Conditions::v5).with_subconditions()));
    rules.push(suffix_inflection("まざる", "む", 0, Conditions(Conditions::v5).with_subconditions()));
    rules.push(suffix_inflection("らざる", "る", 0, Conditions(Conditions::v5).with_subconditions()));
    rules.push(suffix_inflection("わざる", "う", 0, Conditions(Conditions::v5).with_subconditions()));
    rules.push(suffix_inflection("ぜざる", "ずる", 0, Conditions(Conditions::vz).with_subconditions()));
    rules.push(suffix_inflection("せざる", "する", 0, Conditions(Conditions::vs).with_subconditions()));
    rules.push(suffix_inflection("為ざる", "為る", 0, Conditions(Conditions::vs).with_subconditions()));
    rules.push(suffix_inflection("こざる", "くる", 0, Conditions(Conditions::vk).with_subconditions()));
    rules.push(suffix_inflection("来ざる", "来る", 0, Conditions(Conditions::vk).with_subconditions()));
    rules.push(suffix_inflection("來ざる", "來る", 0, Conditions(Conditions::vk).with_subconditions()));
    proof {
        reveal(rules_20);
        assert(rules_view(rules@) =~~= rules_20());
    }
    Transform { name: "-ざる", description: "Negative form of verbs.\n\nUsage: Attach ざる to the irrealis form (未然形) of verbs.\n\nIrregularities: する becomes せざる\n", rules }
}

/// The rules of `-ねば`: ending, replacement, conditions in and out,
/// and endings rewritten first.
#[verifier::opaque]
pub open spec fn rules_21() -> Seq<RuleView> {
    seq![
        ("ねば"@, "る"@, subconditions_added(Conditions::ba), subconditions_added(Conditions::v1), Seq::<(Seq<char>, Seq<char>)>::empty()),
        ("かねば"@, "く"@, subconditions_added(Conditions::ba), subconditions_added(Conditions::v5), Seq::<(Seq<char>, Seq<char>)>::empty()),
        ("がねば"@, "ぐ"@, subconditions_added(Conditions::ba), subconditions_added(Conditions::v5), Seq::<(Seq<char>, Seq<char>)>::empty()),
        ("さねば"@, "す"@, subconditions_added(Conditions::ba), subconditions_added(Conditions::v5), Seq::<(Seq<char>, Seq<char>)>::empty()),
        ("たねば"@, "つ"@, subconditions_added(Conditions::ba), subconditions_added(Conditions::v5), Seq::<(Seq<char>, Seq<char>)>::empty()),
        ("なねば"@, "ぬ"@, subconditions_added(Conditions::ba), subconditions_added(Conditions::v5), Seq::<(Seq<char>, Seq<char>)>::empty()),
        ("ばねば"@, "ぶ"@, subconditions_added(Conditions::ba), subconditions_added(Conditions::v5), Seq::<(Seq<char>, Seq<char>)>::empty()),
        ("まねば"@, "む"@, subconditions_added(Conditions::ba), subconditions_added(Conditions::v5), Seq::<(Seq<char>, Seq<char>)>::empty()),
        ("らねば"@, "る"@, subconditions_added(Conditions::ba), subconditions_added(Conditions::v5), Seq::<(Seq<char>, Seq<char>)>::empty()),
        ("わねば"@, "う"@, subconditions_added(Conditions::ba), subconditions_added(Conditions::v5), Seq::<(Seq<char>, Seq<char>)>::empty()),
        ("ぜねば"@, "ずる"@, subconditions_added(Conditions::ba), subconditions_added(Conditions::vz), Seq::<(Seq<char>, Seq<char>)>::empty()),
        ("せねば"@, "する"@, subconditions_added(Conditions::ba), subconditions_added(Conditions::vs), Seq::<(Seq<char>, Seq<char>)>::empty()),
        ("為ねば"@, "為る"@, subconditions_added(Conditions::ba), subconditions_added(Conditions::vs), Seq::<(Seq<char>, Seq<char>)>::empty()),
        ("こねば"@, "くる"@, subconditions_added(Conditions::ba), subconditions_added(Conditions::vk), Seq::<(Seq<char>, Seq<char>)>::empty()),
        ("来ねば"@, "来る"@, subconditions_added(Conditions::ba), subconditions_added(Conditions::vk), Seq::<(Seq<char>, Seq<char>)>::empty()),
        ("來ねば"@, "來る"@, subconditions_added(Conditions::ba), subconditions_added(Conditions::vk), Seq::<(Seq<char>, Seq<char>)>::empty()),
    ]
}

#[verifier::rlimit(60)]
proof fn lemma_rules_21_ok()
    ensures
        forall|i: int| 0 <= i < rules_21().len() ==> #[trigger] rule_view_ok(rules_21()[i]),
        forall|i: int| 0 <= i < rules_21().len() ==> #[trigger] keeps_godan_rows(rules_21()[i]),
{
    reveal(rules_21);
    reveal_strlit("ねば");
    lemma_utf8_size_bound("ねば"@);
    reveal_strlit("る");
    lemma_utf8_size_bound("る"@);
    reveal_strlit("かねば");
    lemma_utf8_size_bound("かねば"@);
    reveal_strlit("く");
    lemma_utf8_size_bound("く"@);
    reveal_strlit("がねば");
    lemma_utf8_size_bound("がねば"@);
    reveal_strlit("ぐ");
    lemma_utf8_size_bound("ぐ"@);
    reveal_strlit("さねば");
    lemma_utf8_size_bound("さねば"@);
    reveal_strlit("す");
    lemma_utf8_size_bound("す"@);
    reveal_strlit("たねば");
    lemma_utf8_size_bound("たねば"@);
    reveal_strlit("つ");
    lemma_utf8_size_bound("つ"@);
    reveal_strlit("なねば");
    lemma_utf8_size_bound("なねば"@);
    reveal_strlit("ぬ");
    lemma_utf8_size_bound("ぬ"@);
    reveal_strlit("ばねば");
    lemma_utf8_size_bound("ばねば"@);
    reveal_strlit("ぶ");
    lemma_utf8_size_bound("ぶ"@);
    reveal_strlit("まねば");
    lemma_utf8_size_bound("まねば"@);
    reveal_strlit("む");
    lemma_utf8_size_bound("む"@);
    reveal_strlit("らねば");
    lemma_utf8_size_bound("らねば"@);
    reveal_strlit("わねば");
    lemma_utf8_size_bound("わねば"@);
    reveal_strlit("う");
    lemma_utf8_size_bound("う"@);
    reveal_strlit("ぜねば");
    lemma_utf8_size_bound("ぜねば"@);
    reveal_strlit("ずる");
    lemma_utf8_size_bound("ずる"@);
    reveal_strlit("せねば");
    lemma_utf8_size_bound("せねば"@);
    reveal_strlit("する");
    lemma_utf8_size_bound("する"@);
    reveal_strlit("為ねば");
    lemma_utf8_size_bound("為ねば"@);
    reveal_strlit("為る");
    lemma_utf8_size_bound("為る"@);
    reveal_strlit("こねば");
    lemma_utf8_size_bound("こねば"@);
    reveal_strlit("くる");
    lemma_utf8_size_bound("くる"@);
    reveal_strlit("来ねば");
    lemma_utf8_size_bound("来ねば"@);
    reveal_strlit("来る");
    lemma_utf8_size_bound("来る"@);
    reveal_strlit("來ねば");
    lemma_utf8_size_bound("來ねば"@);
    reveal_strlit("來る");
    lemma_utf8_size_bound("來る"@);
}

fn transform_21() -> (r: Transform)
    ensures
        rules_view(r.rules@) == rules_21(),
{
    let mut rules: Vec<Inflection> = Vec::new();
    rules.push(suffix_inflection("ねば", "る", Conditions(Conditions::ba).with_subconditions(), Conditions(Conditions::v1).with_subconditions()));
    rules.push(suffix_inflection("かねば", "く", Conditions(Conditions::ba).with_subconditions(), Conditions(Conditions::v5).with_subconditions()));
    rules.push(suffix_inflection("がねば", "ぐ", Conditions(Conditions::ba).with_subconditions(), Conditions(Conditions::v5).with_subconditions()));
    rules.push(suffix_inflection("さねば", "す", Conditions(Conditions::ba).with_subconditions(), Conditions(Conditions::v5).with_subconditions()));
    rules.push(suffix_inflection("たねば", "つ", Conditions(Conditions::ba).with_subconditions(), Conditions(Conditions::v5).with_subconditions()));
    rules.push(suffix_inflection("なねば", "ぬ", Conditions(Conditions::ba).with_subconditions(), Conditions(Conditions::v5).with_subconditions()));
    rules.push(suffix_inflection("ばねば", "ぶ", Conditions(Conditions::ba).with_subconditions(), Conditions(Conditions::v5).with_subconditions()));
    rules.push(suffix_inflection("まねば", "む", Conditions(Conditions::ba).with_subconditions(), Conditions(Conditions::v5).with_subconditions()));
    rules.push(suffix_inflection("らねば", "る", Conditions(Conditions::ba).with_subconditions(), Conditions(Conditions::v5).with_subconditions()));
    rules.push(suffix_inflection("わねば", "う", Conditions(Conditions::ba).with_subconditions(), Conditions(Conditions::v5).with_subconditions()));
    rules.push(suffix_inflection("ぜねば", "ずる", Conditions(Conditions::ba).with_subconditions(), Conditions(Conditions::vz).with_subconditions()));
    rules.push(suffix_inflection("せねば", "する", Conditions(Conditions::ba).with_subconditions(), Conditions(Conditions::vs).with_subconditions()));
    rules.push(suffix_inflection("為ねば", "為る", Conditions(Conditions::ba).with_subconditions(), Conditions(Conditions::vs).with_subconditions()));
    rules.push(suffix_inflection("こねば", "くる", Conditions(Conditions::ba).with_subconditions(), Conditions(Conditions::vk).with_subconditions()));
    rules.push(suffix_inflection("来ねば", "来る", Conditions(Conditions::ba).with_subconditions(), Conditions(Conditions::vk).with_subconditions()));
    rules.push(suffix_inflection("來ねば", "來る", Conditions(Conditions::ba).with_subconditions(), Conditions(Conditions::vk).with_subconditions()));
    proof {
        reveal(rules_21);
        assert(rules_view(rules@) =~~= rules_21());
    }
    Transform { name: "-ねば", description: "1. Shows a hypothetical negation; if not...\n2. Shows a must. Used with or without ならぬ.\n\nUsage: Attach ねば to the irrealis form (未然形) of verbs.\n\nIrregularities: する becomes せねば\n", rules }
}

/// The rules of `-く`: ending, replacement, conditions in and out,
/// and endings rewritten first.
#[verifier::opaque]
pub open spec fn rules_22() -> Seq<RuleView> {
    seq![
        ("く"@, "い"@, subconditions_added(Conditions::ku), subconditions_added(Conditions::adj_i), Seq::<(Seq<char>, Seq<char>)>::empty()),
    ]
}

#[verifier::rlimit(60)]
proof fn lemma_rules_22_ok()
    ensures
        forall|i: int| 0 <= i < rules_22().len() ==> #[trigger] rule_view_ok(rules_22()[i]),
        forall|i: int| 0 <= i < rules_22().len() ==> #[trigger] keeps_godan_rows(rules_22()[i]),
{
    reveal(rules_22);
    reveal_strlit("く");
    lemma_utf8_size_bound("く"@);
    reveal_strlit("い");
    lemma_utf8_size_bound("い"@);
}

fn transform_22() -> (r: Transform)
    ensures
        rules_view(r.rules@) == rules_22(),
{
    let mut rules: Vec<Inflection> = Vec::new();
    rules.push(suffix_inflection("く", "い", Conditions(Conditions::ku).with_subconditions(), Conditions(Conditions::adj_i).with_subconditions()));
    proof {
        reveal(rules_22);
        assert(rules_view(rules@) =~~= rules_22());
    }
    Transform { name: "-く", description: "Adverbial form of i-adjectives.\n\n\n", rules }
}

/// The rules of `causative`: ending, replacement, conditions in and out,
/// and endings rewritten first.
#[verifier::opaque]
pub open spec fn rules_23() -> Seq<RuleView> {
    seq![
        ("させる"@, "る"@, subconditions_added(Conditions::v1), subconditions_added(Conditions::v1), Seq::<(Seq<char>, Seq<char>)>::empty()),
        ("かせる"@, "く"@, subconditions_added(Conditions::v1), subconditions_added(Conditions::v5), Seq::<(Seq<char>, Seq<char>)>::empty()),
        ("がせる"@, "ぐ"@, subconditions_added(Conditions::v1), subconditions_added(Conditions::v5), Seq::<(Seq<char>, Seq<char>)>::empty()),
        ("させる"@, "す"@, subconditions_added(Conditions::v1), subconditions_added(Conditions::v5), Seq::<(Seq<char>, Seq<char>)>::empty()),
        ("たせる"@, "つ"@, subconditions_added(Conditions::v1), subconditions_added(Conditions::v5), Seq::<(Seq<char>, Seq<char>)>::empty()),
        ("なせる"@, "ぬ"@, subconditions_added(Conditions::v1), subconditions_added(Conditions::v5), Seq::<(Seq<char>, Seq<char>)>::empty()),
        ("ばせる"@, "ぶ"@, subconditions_added(Conditions::v1), subconditions_added(Conditions::v5), Seq::<(Seq<char>, Seq<char>)>::empty()),
        ("ませる"@, "む"@, subconditions_added(Conditions::v1), subconditions_added(Conditions::v5), Seq::<(Seq<char>, Seq<char>)>::empty()),
        ("らせる"@, "る"@, subconditions_added(Conditions::v1), subconditions_added(Conditions::v5), Seq::<(Seq<char>, Seq<char>)>::empty()),
        ("わせる"@, "う"@, subconditions_added(Conditions::v1), subconditions_added(Conditions::v5), Seq::<(Seq<char>, Seq<char>)>::empty()),
        ("じさせる"@, "ずる"@, subconditions_added(Conditions::v1), subconditions_added(Conditions::vz), Seq::<(Seq<char>, Seq<char>)>::empty()),
        ("ぜさせる"@, "ずる"@, subconditions_added(Conditions::v1), subconditions_added(Conditions::vz), Seq::<(Seq<char>, Seq<char>)>::empty()),
        ("させる"@, "する"@, subconditions_added(Conditions::v1), subconditions_added(Conditions::vs), Seq::<(Seq<char>, Seq<char>)>::empty()),
        ("為せる"@, "為る"@, subconditions_added(Conditions::v1), subconditions_added(Conditions::vs), Seq::<(Seq<char>, Seq<char>)>::empty()),
        ("せさせる"@, "する"@, subconditions_added(Conditions::v1), subconditions_added(Conditions::vs), Seq::<(Seq<char>, Seq<char>)>::empty()),
        ("為させる"@, "為る"@, subconditions_added(Conditions::v1), subconditions_added(Conditions::vs), Seq::<(Seq<char>, Seq<char>)>::empty()),
        ("こさせる"@, "くる"@, subconditions_added(Conditions::v1), subconditions_added(Conditions::vk), Seq::<(Seq<char>, Seq<char>)>::empty()),
        ("来させる"@, "来る"@, subconditions_added(Conditions::v1), subconditions_added(Conditions::vk), Seq::<(Seq<char>, Seq<char>)>::empty()),
        ("來させる"@, "來る"@, subconditions_added(Conditions::v1), subconditions_added(Conditions::vk), Seq::<(Seq<char>, Seq<char>)>::empty()),
    ]
}

#[verifier::rlimit(60)]
proof fn lemma_rules_23_ok()
    ensures
        forall|i: int| 0 <= i < rules_23().len() ==> #[trigger] rule_view_ok(rules_23()[i]),
        forall|i: int| 0 <= i < rules_23().len() ==> #[trigger] keeps_godan_rows(rules_23()[i]),
{
    reveal(rules_23);
    reveal_strlit("させる");
    lemma_utf8_size_bound("させる"@);
    reveal_strlit("る");
    lemma_utf8_size_bound("る"@);
    reveal_strlit("かせる");
    lemma_utf8_size_bound("かせる"@);
    reveal_strlit("く");
    lemma_utf8_size_bound("く"@);
    reveal_strlit("がせる");
    lemma_utf8_size_bound("がせる"@);
    reveal_strlit("ぐ");
    lemma_utf8_size_bound("ぐ"@);
    reveal_strlit("す");
    lemma_utf8_size_bound("す"@);
    reveal_strlit("たせる");
    lemma_utf8_size_bound("たせる"@);
    reveal_strlit("つ");
    lemma_utf8_size_bound("つ"@);
    reveal_strlit("なせる");
    lemma_utf8_size_bound("なせる"@);
    reveal_strlit("ぬ");
    lemma_utf8_size_bound("ぬ"@);
    reveal_strlit("ばせる");
    lemma_utf8_size_bound("ばせる"@);
    reveal_strlit("ぶ");
    lemma_utf8_size_bound("ぶ"@);
    reveal_strlit("ませる");
    lemma_utf8_size_bound("ませる"@);
    reveal_strlit("む");
    lemma_utf8_size_bound("む"@);
    reveal_strlit("らせる");
    lemma_utf8_size_bound("らせる"@);
    reveal_strlit("わせる");
    lemma_utf8_size_bound("わせる"@);
    reveal_strlit("う");
    lemma_utf8_size_bound("う"@);
    reveal_strlit("じさせる");
    lemma_utf8_size_bound("じさせる"@);
    reveal_strlit("ずる");
    lemma_utf8_size_bound("ずる"@);
    reveal_strlit("ぜさせる");
    lemma_utf8_size_bound("ぜさせる"@);
    reveal_strlit("する");
    lemma_utf8_size_bound("する"@);
    reveal_strlit("為せる");
    lemma_utf8_size_bound("為せる"@);
    reveal_strlit("為る");
    lemma_utf8_size_bound("為る"@);
    reveal_strlit("せさせる");
    lemma_utf8_size_bound("せさせる"@);
    reveal_strlit("為させる");
    lemma_utf8_size_bound("為させる"@);
    reveal_strlit("こさせる");
    lemma_utf8_size_bound("こさせる"@);
    reveal_strlit("くる");
    lemma_utf8_size_bound("くる"@);
    reveal_strlit("来させる");
    lemma_utf8_size_bound("来させる"@);
    reveal_strlit("来る");
    lemma_utf8_size_bound("来る"@);
    reveal_strlit("來させる");
    lemma_utf8_size_bound("來させる"@);
    reveal_strlit("來る");
    lemma_utf8_size_bound("來る"@);
}

fn transform_23() -> (r: Transform)
    ensures
        rules_view(r.rules@) == rules_23(),
{
    let mut rules: Vec<Inflection> = Vec::new();
    rules.push(suffix_inflection("させる", "る", Conditions(Conditions::v1).with_subconditions(), Conditions(Conditions::v1).with_subconditions()));
    rules.push(suffix_inflection("かせる", "く", Conditions(Conditions::v1).with_subconditions(), Conditions(Conditions::v5).with_subconditions()));
    rules.push(suffix_inflection("がせる", "ぐ", Conditions(Conditions::v1).with_subconditions(), Conditions(Conditions::v5).with_subconditions()));
    rules.push(suffix_inflection("させる", "す", Conditions(Conditions::v1).with_subconditions(), Conditions(Conditions::v5).with_subconditions()));
    rules.push(suffix_inflection("たせる", "つ", Conditions(Conditions::v1).with_subconditions(), Conditions(Conditions::v5).with_subconditions()));
    rules.push(suffix_inflection("なせる", "ぬ", Conditions(Conditions::v1).with_subconditions(), Conditions(Conditions::v5).with_subconditions()));
    rules.push(suffix_inflection("ばせる", "ぶ", Conditions(Conditions::v1).with_subconditions(), Conditions(Conditions::v5).with_subconditions()));
    rules.push(suffix_inflection("ませる", "む", Conditions(Conditions::v1).with_subconditions(), Conditions(Conditions::v5).with_subconditions()));
    rules.push(suffix_inflection("らせる", "る", Conditions(Conditions::v1).with_subconditions(), Conditions(Conditions::v5).with_subconditions()));
    rules.push(suffix_inflection("わせる", "う", Conditions(Conditions::v1).with_subconditions(), Conditions(Conditions::v5).with_subconditions()));
    rules.push(suffix_inflection("じさせる", "ずる", Conditions(Conditions::v1).with_subconditions(), Conditions(Conditions::vz).with_subconditions()));
    rules.push(suffix_inflection("ぜさせる", "ずる", Conditions(Conditions::v1).with_subconditions(), Conditions(Conditions::vz).with_subconditions()));
    rules.push(suffix_inflection("させる", "する", Conditions(Conditions::v1).with_subconditions(), Conditions(Conditions::vs).with_subconditions()));
    rules.push(suffix_inflection("為せる", "為る", Conditions(Conditions::v1).with_subconditions(), Conditions(Conditions::vs).with_subconditions()));
    rules.push(suffix_inflection("せさせる", "する", Conditions(Conditions::v1).with_subconditions(), Conditions(Conditions::vs).with_subconditions()));
    rules.push(suffix_inflection("為させる", "為る", Conditions(Conditions::v1).with_subconditions(), Conditions(Conditions::vs).with_subconditions()));
    rules.push(suffix_inflection("こさせる", "くる", Conditions(Conditions::v1).with_subconditions(), Conditions(Conditions::vk).with_subconditions()));
    rules.push(suffix_inflection("来させる", "来る", Conditions(Conditions::v1).with_subconditions(), Conditions(Conditions::vk).with_subconditions()));
    rules.push(suffix_inflection("來させる", "來る", Conditions(Conditions::v1).with_subconditions(), Conditions(Conditions::vk).with_subconditions()));
    proof {
        reveal(rules_23);
        assert(rules_view(rules@) =~~= rules_23());
    }
    Transform { name: "causative", description: "Describes the intention to make someone do something.\n\nUsage: Attach させる to the irrealis form (未然形) of ichidan verbs and くる.\n       Attach せる to the irrealis form (未然形) of godan verbs and する.\n\nIt itself conjugates as an ichidan verb.\n", rules }
}

/// The rules of `short causative`: ending, replacement, conditions in and out,
/// and endings rewritten first.
#[verifier::opaque]
pub open spec fn rules_24() -> Seq<RuleView> {
    seq![
        ("さす"@, "る"@, subconditions_added(Conditions::v5ss), subconditions_added(Conditions::v1), Seq::<(Seq<char>, Seq<char>)>::empty()),
        ("かす"@, "く"@, subconditions_added(Conditions::v5sp), subconditions_added(Conditions::v5), Seq::<(Seq<char>, Seq<char>)>::empty()),
        ("がす"@, "ぐ"@, subconditions_added(Conditions::v5sp), subconditions_added(Conditions::v5), Seq::<(Seq<char>, Seq<char>)>::empty()),
        ("さす"@, "す"@, subconditions_added(Conditions::v5ss), subconditions_added(Conditions::v5), Seq::<(Seq<char>, Seq<char>)>::empty()),
        ("たす"@, "つ"@, subconditions_added(Conditions::v5sp), subconditions_added(Conditions::v5), Seq::<(Seq<char>, Seq<char>)>::empty()),
        ("なす"@, "ぬ"@, subconditions_added(Conditions::v5sp), subconditions_added(Conditions::v5), Seq::<(Seq<char>, Seq<char>)>::empty()),
        ("ばす"@, "ぶ"@, subconditions_added(Conditions::v5sp), subconditions_added(Conditions::v5), Seq::<(Seq<char>, Seq<char>)>::empty()),
        ("ます"@, "む"@, subconditions_added(Conditions::v5sp), subconditions_added(Conditions::v5), Seq::<(Seq<char>, Seq<char>)>::empty()),
        ("らす"@, "る"@, subconditions_added(Conditions::v5sp), subconditions_added(Conditions::v5), Seq::<(Seq<char>, Seq<char>)>::empty()),
        ("わす"@, "う"@, subconditions_added(Conditions::v5sp), subconditions_added(Conditions::v5), Seq::<(Seq<char>, Seq<char>)>::empty()),
        ("じさす"@, "ずる"@, subconditions_added(Conditions::v5ss), subconditions_added(Conditions::vz), Seq::<(Seq<char>, Seq<char>)>::empty()),
        ("ぜさす"@, "ずる"@, subconditions_added(Conditions::v5ss), subconditions_added(Conditions::vz), Seq::<(Seq<char>, Seq<char>)>::empty()),
        ("さす"@, "する"@, subconditions_added(Conditions::v5ss), subconditions_added(Conditions::vs), Seq::<(Seq<char>, Seq<char>)>::empty()),
        ("為す"@, "為る"@, subconditions_added(Conditions::v5ss), subconditions_added(Conditions::vs), Seq::<(Seq<char>, Seq<char>)>::empty()),
        ("こさす"@, "くる"@, subconditions_added(Conditions::v5ss), subconditions_added(Conditions::vk), Seq::<(Seq<char>, Seq<char>)>::empty()),
        ("来さす"@, "来る"@, subconditions_added(Conditions::v5ss), subconditions_added(Conditions::vk), Seq::<(Seq<char>, Seq<char>)>::empty()),
        ("來さす"@, "來る"@, subconditions_added(Conditions::v5ss), subconditions_added(Conditions::vk), Seq::<(Seq<char>, Seq<char>)>::empty()),
    ]
}

#[verifier::rlimit(60)]
proof fn lemma_rules_24_ok()
    ensures
        forall|i: int| 0 <= i < rules_24().len() ==> #[trigger] rule_view_ok(rules_24()[i]),
        forall|i: int| 0 <= i < rules_24().len() ==> #[trigger] keeps_godan_rows(rules_24()[i]),
{
    reveal(rules_24);
    reveal_strlit("さす");
    lemma_utf8_size_bound("さす"@);
    reveal_strlit("る");
    lemma_utf8_size_bound("る"@);
    reveal_strlit("かす");
    lemma_utf8_size_bound("かす"@);
    reveal_strlit("く");
    lemma_utf8_size_bound("く"@);
    reveal_strlit("がす");
    lemma_utf8_size_bound("がす"@);
    reveal_strlit("ぐ");
    lemma_utf8_size_bound("ぐ"@);
    reveal_strlit("す");
    lemma_utf8_size_bound("す"@);
    reveal_strlit("たす");
    lemma_utf8_size_bound("たす"@);
    reveal_strlit("つ");
    lemma_utf8_size_bound("つ"@);
    reveal_strlit("なす");
    lemma_utf8_size_bound("なす"@);
    reveal_strlit("ぬ");
    lemma_utf8_size_bound("ぬ"@);
    reveal_strlit("ばす");
    lemma_utf8_size_bound("ばす"@);
    reveal_strlit("ぶ");
    lemma_utf8_size_bound("ぶ"@);
    reveal_strlit("ます");
    lemma_utf8_size_bound("ます"@);
    reveal_strlit("む");
    lemma_utf8_size_bound("む"@);
    reveal_strlit("らす");
    lemma_utf8_size_bound("らす"@);
    reveal_strlit("わす");
    lemma_utf8_size_bound("わす"@);
    reveal_strlit("う");
    lemma_utf8_size_bound("う"@);
    reveal_strlit("じさす");
    lemma_utf8_size_bound("じさす"@);
    reveal_strlit("ずる");
    lemma_utf8_size_bound("ずる"@);
    reveal_strlit("ぜさす");
    lemma_utf8_size_bound("ぜさす"@);
    reveal_strlit("する");
    lemma_utf8_size_bound("する"@);
    reveal_strlit("為す");
    lemma_utf8_size_bound("為す"@);
    reveal_strlit("為る");
    lemma_utf8_size_bound("為る"@);
    reveal_strlit("こさす");
    lemma_utf8_size_bound("こさす"@);
    reveal_strlit("くる");
    lemma_utf8_size_bound("くる"@);
    reveal_strlit("来さす");
    lemma_utf8_size_bound("来さす"@);
    reveal_strlit("来る");
    lemma_utf8_size_bound("来る"@);
    reveal_strlit("來さす");
    lemma_utf8_size_bound("來さす"@);
    reveal_strlit("來る");
    lemma_utf8_size_bound("來る"@);
}

fn transform_24() -> (r: Transform)
    ensures
        rules_view(r.rules@) == rules_24(),
{
    let mut rules: Vec<Inflection> = Vec::new();
    rules.push(suffix_inflection("さす", "る", Conditions(Conditions::v5ss).with_subconditions(), Conditions(Conditions::v1).with_subconditions()));
    rules.push(suffix_inflection("かす", "く", Conditions(Conditions::v5sp).with_subconditions(), Conditions(Conditions::v5).with_subconditions()));
    rules.push(suffix_inflection("がす", "ぐ", Conditions(Conditions::v5sp).with_subconditions(), Conditions(Conditions::v5).with_subconditions()));
    rules.push(suffix_inflection("さす", "す", Conditions(Conditions::v5ss).with_subconditions(), Conditions(Conditions::v5).with_subconditions()));
    rules.push(suffix_inflection("たす", "つ", Conditions(Conditions::v5sp).with_subconditions(), Conditions(Conditions::v5).with_subconditions()));
    rules.push(suffix_inflection("なす", "ぬ", Conditions(Conditions::v5sp).with_subconditions(), Conditions(Conditions::v5).with_subconditions()));
    rules.push(suffix_inflection("ばす", "ぶ", Conditions(Conditions::v5sp).with_subconditions(), Conditions(Conditions::v5).with_subconditions()));
    rules.push(suffix_inflection("ます", "む", Conditions(Conditions::v5sp).with_subconditions(), Conditions(Conditions::v5).with_subconditions()));
    rules.push(suffix_inflection("らす", "る", Conditions(Conditions::v5sp).with_subconditions(), Conditions(Conditions::v5).with_subconditions()));
    rules.push(suffix_inflection("わす", "う", Conditions(Conditions::v5sp).with_subconditions(), Conditions(Conditions::v5).with_subconditions()));
    rules.push(suffix_inflection("じさす", "ずる", Conditions(Conditions::v5ss).with_subconditions(), Conditions(Conditions::vz).with_subconditions()));
    rules.push(suffix_inflection("ぜさす", "ずる", Conditions(Conditions::v5ss).with_subconditions(), Conditions(Conditions::vz).with_subconditions()));
    rules.push(suffix_inflection("さす", "する", Conditions(Conditions::v5ss).with_subconditions(), Conditions(Conditions::vs).with_subconditions()));
    rules.push(suffix_inflection("為す", "為る", Conditions(Conditions::v5ss).with_subconditions(), Conditions(Conditions::vs).with_subconditions()));
    rules.push(suffix_inflection("こさす", "くる", Conditions(Conditions::v5ss).with_subconditions(), Conditions(Conditions::vk).with_subconditions()));
    rules.push(suffix_inflection("来さす", "来る", Conditions(Conditions::v5ss).with_subconditions(), Conditions(Conditions::vk).with_subconditions()));
    rules.push(suffix_inflection("來さす", "來る", Conditions(Conditions::v5ss).with_subconditions(), Conditions(Conditions::vk).with_subconditions()));
    proof {
        reveal(rules_24);
        assert(rules_view(rules@) =~~= rules_24());
    }
    Transform { name: "short causative", description: "Contraction of the causative form.\nDescribes the intention to make someone do something.\n\nUsage: Attach す to the irrealis form (未然形) of godan verbs.\n       Attach さす to the dictionary form (終止形) of ichidan verbs.\n\nIrregularities: する becomes さす, くる becomes こさす.\nIt itself conjugates as an godan verb.\n", rules }
}

/// The rules of `imperative`: ending, replacement, conditions in and out,
/// and endings rewritten first.
#[verifier::opaque]
pub open spec fn rules_25() -> Seq<RuleView> {
    seq![
        ("ろ"@, "る"@, 0u32, subconditions_added(Conditions::v1), Seq::<(Seq<char>, Seq<char>)>::empty()),
        ("よ"@, "る"@, 0u32, subconditions_added(Conditions::v1), Seq::<(Seq<char>, Seq<char>)>::empty()),
        ("え"@, "う"@, 0u32, subconditions_added(Conditions::v5), Seq::<(Seq<char>, Seq<char>)>::empty()),
        ("け"@, "く"@, 0u32, subconditions_added(Conditions::v5), Seq::<(Seq<char>, Seq<char>)>::empty()),
        ("げ"@, "ぐ"@, 0u32, subconditions_added(Conditions::v5), Seq::<(Seq<char>, Seq<char>)>::empty()),
        ("せ"@, "す"@, 0u32, subconditions_added(Conditions::v5), Seq::<(Seq<char>, Seq<char>)>::empty()),
        ("て"@, "つ"@, 0u32, subconditions_added(Conditions::v5), Seq::<(Seq<char>, Seq<char>)>::empty()),
        ("ね"@, "ぬ"@, 0u32, subconditions_added(Conditions::v5), Seq::<(Seq<char>, Seq<char>)>::empty()),
        ("べ"@, "ぶ"@, 0u32, subconditions_added(Conditions::v5), Seq::<(Seq<char>, Seq<char>)>::empty()),
        ("め"@, "む"@, 0u32, subconditions_added(Conditions::v5), Seq::<(Seq<char>, Seq<char>)>::empty()),
        ("れ"@, "る"@, 0u32, subconditions_added(Conditions::v5), Seq::<(Seq<char>, Seq<char>)>::empty()),
        ("じろ"@, "ずる"@, 0u32, subconditions_added(Conditions::vz), Seq::<(Seq<char>, Seq<char>)>::empty()),
        ("ぜよ"@, "ずる"@, 0u32, subconditions_added(Conditions::vz), Seq::<(Seq<char>, Seq<char>)>::empty()),
        ("しろ"@, "する"@, 0u32, subconditions_added(Conditions::vs), Seq::<(Seq<char>, Seq<char>)>::empty()),
        ("せよ"@, "する"@, 0u32, subconditions_added(Conditions::vs), Seq::<(Seq<char>, Seq<char>)>::empty()),
        ("為ろ"@, "為る"@, 0u32, subconditions_added(Conditions::vs), Seq::<(Seq<char>, Seq<char>)>::empty()),
        ("為よ"@, "為る"@, 0u32, subconditions_added(Conditions::vs), Seq::<(Seq<char>, Seq<char>)>::empty()),
        ("こい"@, "くる"@, 0u32, subconditions_added(Conditions::vk), Seq::<(Seq<char>, Seq<char>)>::empty()),
        ("来い"@, "来る"@, 0u32, subconditions_added(Conditions::vk), Seq::<(Seq<char>, Seq<char>)>::empty()),
        ("來い"@, "來る"@, 0u32, subconditions_added(Conditions::vk), Seq::<(Seq<char>, Seq<char>)>::empty()),
    ]
}

#[verifier::rlimit(60)]
proof fn lemma_rules_25_ok()
    ensures
        forall|i: int| 0 <= i < rules_25().len() ==> #[trigger] rule_view_ok(rules_25()[i]),
        forall|i: int| 0 <= i < rules_25().len() ==> #[trigger] keeps_godan_rows(rules_25()[i]),
{
    reveal(rules_25);
    reveal_strlit("ろ");
    lemma_utf8_size_bound("ろ"@);
    reveal_strlit("る");
    lemma_utf8_size_bound("る"@);
    reveal_strlit("よ");
    lemma_utf8_size_bound("よ"@);
    reveal_strlit("え");
    lemma_utf8_size_bound("え"@);
    reveal_strlit("う");
    lemma_utf8_size_bound("う"@);
    reveal_strlit("け");
    lemma_utf8_size_bound("け"@);
    reveal_strlit("く");
    lemma_utf8_size_bound("く"@);
    reveal_strlit("げ");
    lemma_utf8_size_bound("げ"@);
    reveal_strlit("ぐ");
    lemma_utf8_size_bound("ぐ"@);
    reveal_strlit("せ");
    lemma_utf8_size_bound("せ"@);
    reveal_strlit("す");
    lemma_utf8_size_bound("す"@);
    reveal_strlit("て");
    lemma_utf8_size_bound("て"@);
    reveal_strlit("つ");
    lemma_utf8_size_bound("つ"@);
    reveal_strlit("ね");
    lemma_utf8_size_bound("ね"@);
    reveal_strlit("ぬ");
    lemma_utf8_size_bound("ぬ"@);
    reveal_strlit("べ");
    lemma_utf8_size_bound("べ"@);
    reveal_strlit("ぶ");
    lemma_utf8_size_bound("ぶ"@);
    reveal_strlit("め");
    lemma_utf8_size_bound("め"@);
    reveal_strlit("む");
    lemma_utf8_size_bound("む"@);
    reveal_strlit("れ");
    lemma_utf8_size_bound("れ"@);
    reveal_strlit("じろ");
    lemma_utf8_size_bound("じろ"@);
    reveal_strlit("ずる");
    lemma_utf8_size_bound("ずる"@);
    reveal_strlit("ぜよ");
    lemma_utf8_size_bound("ぜよ"@);
    reveal_strlit("しろ");
    lemma_utf8_size_bound("しろ"@);
    reveal_strlit("する");
    lemma_utf8_size_bound("する"@);
    reveal_strlit("せよ");
    lemma_utf8_size_bound("せよ"@);
    reveal_strlit("為ろ");
    lemma_utf8_size_bound("為ろ"@);
    reveal_strlit("為る");
    lemma_utf8_size_bound("為る"@);
    reveal_strlit("為よ");
    lemma_utf8_size_bound("為よ"@);
    reveal_strlit("こい");
    lemma_utf8_size_bound("こい"@);
    reveal_strlit("くる");
    lemma_utf8_size_bound("くる"@);
    reveal_strlit("来い");
    lemma_utf8_size_bound("来い"@);
    reveal_strlit("来る");
    lemma_utf8_size_bound("来る"@);
    reveal_strlit("來い");
    lemma_utf8_size_bound("來い"@);
    reveal_strlit("來る");
    lemma_utf8_size_bound("來る"@);
}

fn transform_25() -> (r: Transform)
    ensures
        rules_view(r.rules@) == rules_25(),
{
    let mut rules: Vec<Inflection> = Vec::new();
    rules.push(suffix_inflection("ろ", "る", 0, Conditions(Conditions::v1).with_subconditions()));
    rules.push(suffix_inflection("よ", "る", 0, Conditions(Conditions::v1).with_subconditions()));
    rules.push(suffix_inflection("え", "う", 0, Conditions(Conditions::v5).with_subconditions()));
    rules.push(suffix_inflection("け", "く", 0, Conditions(Conditions::v5).with_subconditions()));
    rules.push(suffix_inflection("げ", "ぐ", 0, Conditions(Conditions::v5).with_subconditions()));
    rules.push(suffix_inflection("せ", "す", 0, Conditions(Conditions::v5).with_subconditions()));
    rules.push(suffix_inflection("て", "つ", 0, Conditions(Conditions::v5).with_subconditions()));
    rules.push(suffix_inflection("ね", "ぬ", 0, Conditions(Conditions::v5).with_subconditions()));
    rules.push(suffix_inflection("べ", "ぶ", 0, Conditions(Conditions::v5).with_subconditions()));
    rules.push(suffix_inflection("め", "む", 0, Conditions(Conditions::v5).with_subconditions()));
    rules.push(suffix_inflection("れ", "る", 0, Conditions(Conditions::v5).with_subconditions()));
    rules.push(suffix_inflection("じろ", "ずる", 0, Conditions(Conditions::vz).with_subconditions()));
    rules.push(suffix_inflection("ぜよ", "ずる", 0, Conditions(Conditions::vz).with_subconditions()));
    rules.push(suffix_inflection("しろ", "する", 0, Conditions(Conditions::vs).with_subconditions()));
    rules.push(suffix_inflection("せよ", "する", 0, Conditions(Conditions::vs).with_subconditions()));
    rules.push(suffix_inflection("為ろ", "為る", 0, Conditions(Conditions::vs).with_subconditions()));
    rules.push(suffix_inflection("為よ", "為る", 0, Conditions(Conditions::vs).with_subconditions()));
    rules.push(suffix_inflection("こい", "くる", 0, Conditions(Conditions::vk).with_subconditions()));
    rules.push(suffix_inflection("来い", "来る", 0, Conditions(Conditions::vk).with_subconditions()));
    rules.push(suffix_inflection("來い", "來る", 0, Conditions(Conditions::vk).with_subconditions()));
    proof {
        reveal(rules_25);
        assert(rules_view(rules@) =~~= rules_25());
    }
    Transform { name: "imperative", description: "1. To give orders.\n2. (As あれ) Represents the fact that it will never change no matter the circumstances.\n3. Express a feeling of hope.\n", rules }
}

/// The rules of `continuative`: ending, replacement, conditions in and out,
/// and endings rewritten first.
#[verifier::opaque]
pub open spec fn rules_26() -> Seq<RuleView> {
    seq![
        ("い"@, "いる"@, 0u32, subconditions_added(Conditions::v1d), Seq::<(Seq<char>, Seq<char>)>::empty()),
        ("え"@, "える"@, 0u32, subconditions_added(Conditions::v1d), Seq::<(Seq<char>, Seq<char>)>::empty()),
        ("き"@, "きる"@, 0u32, subconditions_added(Conditions::v1d), Seq::<(Seq<char>, Seq<char>)>::empty()),
        ("ぎ"@, "ぎる"@, 0u32, subconditions_added(Conditions::v1d), Seq::<(Seq<char>, Seq<char>)>::empty()),
        ("け"@, "ける"@, 0u32, subconditions_added(Conditions::v1d), Seq::<(Seq<char>, Seq<char>)>::empty()),
        ("げ"@, "げる"@, 0u32, subconditions_added(Conditions::v1d), Seq::<(Seq<char>, Seq<char>)>::empty()),
        ("じ"@, "じる"@, 0u32, subconditions_added(Conditions::v1d), Seq::<(Seq<char>, Seq<char>)>::empty()),
        ("せ"@, "せる"@, 0u32, subconditions_added(Conditions::v1d), Seq::<(Seq<char>, Seq<char>)>::empty()),
        ("ぜ"@, "ぜる"@, 0u32, subconditions_added(Conditions::v1d), Seq::<(Seq<char>, Seq<char>)>::empty()),
        ("ち"@, "ちる"@, 0u32, subconditions_added(Conditions::v1d), Seq::<(Seq<char>, Seq<char>)>::empty()),
        ("て"@, "てる"@, 0u32, subconditions_added(Conditions::v1d), Seq::<(Seq<char>, Seq<char>)>::empty()),
        ("で"@, "でる"@, 0u32, subconditions_added(Conditions::v1d), Seq::<(Seq<char>, Seq<char>)>::empty()),
        ("に"@, "にる"@, 0u32, subconditions_added(Conditions::v1d), Seq::<(Seq<char>, Seq<char>)>::empty()),
        ("ね"@, "ねる"@, 0u32, subconditions_added(Conditions::v1d), Seq::<(Seq<char>, Seq<char>)>::empty()),
        ("ひ"@, "ひる"@, 0u32, subconditions_added(Conditions::v1d), Seq::<(Seq<char>, Seq<char>)>::empty()),
        ("び"@, "びる"@, 0u32, subconditions_added(Conditions::v1d), Seq::<(Seq<char>, Seq<char>)>::empty()),
        ("へ"@, "へる"@, 0u32, subconditions_added(Conditions::v1d), Seq::<(Seq<char>, Seq<char>)>::empty()),
        ("べ"@, "べる"@, 0u32, subconditions_added(Conditions::v1d), Seq::<(Seq<char>, Seq<char>)>::empty()),
        ("み"@, "みる"@, 0u32, subconditions_added(Conditions::v1d), Seq::<(Seq<char>, Seq<char>)>::empty()),
        ("め"@, "める"@, 0u32, subconditions_added(Conditions::v1d), Seq::<(Seq<char>, Seq<char>)>::empty()),
        ("り"@, "りる"@, 0u32, subconditions_added(Conditions::v1d), Seq::<(Seq<char>, Seq<char>)>::empty()),
        ("れ"@, "れる"@, 0u32, subconditions_added(Conditions::v1d), Seq::<(Seq<char>, Seq<char>)>::empty()),
        ("い"@, "う"@, 0u32, subconditions_added(Conditions::v5), Seq::<(Seq<char>, Seq<char>)>::empty()),
        ("き"@, "く"@, 0u32, subconditions_added(Conditions::v5), Seq::<(Seq<char>, Seq<char>)>::empty()),
        ("ぎ"@, "ぐ"@, 0u32, subconditions_added(Conditions::v5), Seq::<(Seq<char>, Seq<char>)>::empty()),
        ("し"@, "す"@, 0u32, subconditions_added(Conditions::v5), Seq::<(Seq<char>, Seq<char>)>::empty()),
        ("ち"@, "つ"@, 0u32, subconditions_added(Conditions::v5), Seq::<(Seq<char>, Seq<char>)>::empty()),
        ("に"@, "ぬ"@, 0u32, subconditions_added(Conditions::v5), Seq::<(Seq<char>, Seq<char>)>::empty()),
        ("び"@, "ぶ"@, 0u32, subconditions_added(Conditions::v5), Seq::<(Seq<char>, Seq<char>)>::empty()),
        ("み"@, "む"@, 0u32, subconditions_added(Conditions::v5), Seq::<(Seq<char>, Seq<char>)>::empty()),
        ("り"@, "る"@, 0u32, subconditions_added(Conditions::v5), Seq::<(Seq<char>, Seq<char>)>::empty()),
        ("き"@, "くる"@, 0u32, subconditions_added(Conditions::vk), Seq::<(Seq<char>, Seq<char>)>::empty()),
        ("し"@, "する"@, 0u32, subconditions_added(Conditions::vs), Seq::<(Seq<char>, Seq<char>)>::empty()),
        ("来"@, "来る"@, 0u32, subconditions_added(Conditions::vk), Seq::<(Seq<char>, Seq<char>)>::empty()),
        ("來"@, "來る"@, 0u32, subconditions_added(Conditions::vk), Seq::<(Seq<char>, Seq<char>)>::empty()),
    ]
}

#[verifier::rlimit(60)]
proof fn lemma_rules_26_ok()
    ensures
        forall|i: int| 0 <= i < rules_26().len() ==> #[trigger] rule_view_ok(rules_26()[i]),
        forall|i: int| 0 <= i < rules_26().len() ==> #[trigger] keeps_godan_rows(rules_26()[i]),
{
    reveal(rules_26);
    reveal_strlit("い");
    lemma_utf8_size_bound("い"@);
    reveal_strlit("いる");
    lemma_utf8_size_bound("いる"@);
    reveal_strlit("え");
    lemma_utf8_size_bound("え"@);
    reveal_strlit("える");
    lemma_utf8_size_bound("える"@);
    reveal_strlit("き");
    lemma_utf8_size_bound("き"@);
    reveal_strlit("きる");
    lemma_utf8_size_bound("きる"@);
    reveal_strlit("ぎ");
    lemma_utf8_size_bound("ぎ"@);
    reveal_strlit("ぎる");
    lemma_utf8_size_bound("ぎる"@);
    reveal_strlit("け");
    lemma_utf8_size_bound("け"@);
    reveal_strlit("ける");
    lemma_utf8_size_bound("ける"@);
    reveal_strlit("げ");
    lemma_utf8_size_bound("げ"@);
    reveal_strlit("げる");
    lemma_utf8_size_bound("げる"@);
    reveal_strlit("じ");
    lemma_utf8_size_bound("じ"@);
    reveal_strlit("じる");
    lemma_utf8_size_bound("じる"@);
    reveal_strlit("せ");
    lemma_utf8_size_bound("せ"@);
    reveal_strlit("せる");
    lemma_utf8_size_bound("せる"@);
    reveal_strlit("ぜ");
    lemma_utf8_size_bound("ぜ"@);
    reveal_strlit("ぜる");
    lemma_utf8_size_bound("ぜる"@);
    reveal_strlit("ち");
    lemma_utf8_size_bound("ち"@);
    reveal_strlit("ちる");
    lemma_utf8_size_bound("ちる"@);
    reveal_strlit("て");
    lemma_utf8_size_bound("て"@);
    reveal_strlit("てる");
    lemma_utf8_size_bound("てる"@);
    reveal_strlit("で");
    lemma_utf8_size_bound("で"@);
    reveal_strlit("でる");
    lemma_utf8_size_bound("でる"@);
    reveal_strlit("に");
    lemma_utf8_size_bound("に"@);
    reveal_strlit("にる");
    lemma_utf8_size_bound("にる"@);
    reveal_strlit("ね");
    lemma_utf8_size_bound("ね"@);
    reveal_strlit("ねる");
    lemma_utf8_size_bound("ねる"@);
    reveal_strlit("ひ");
    lemma_utf8_size_bound("ひ"@);
    reveal_strlit("ひる");
    lemma_utf8_size_bound("ひる"@);
    reveal_strlit("び");
    lemma_utf8_size_bound("び"@);
    reveal_strlit("びる");
    lemma_utf8_size_bound("びる"@);
    reveal_strlit("へ");
    lemma_utf8_size_bound("へ"@);
    reveal_strlit("へる");
    lemma_utf8_size_bound("へる"@);
    reveal_strlit("べ");
    lemma_utf8_size_bound("べ"@);
    reveal_strlit("べる");
    lemma_utf8_size_bound("べる"@);
    reveal_strlit("み");
    lemma_utf8_size_bound("み"@);
    reveal_strlit("みる");
    lemma_utf8_size_bound("みる"@);
    reveal_strlit("め");
    lemma_utf8_size_bound("め"@);
    reveal_strlit("める");
    lemma_utf8_size_bound("める"@);
    reveal_strlit("り");
    lemma_utf8_size_bound("り"@);
    reveal_strlit("りる");
    lemma_utf8_size_bound("りる"@);
    reveal_strlit("れ");
    lemma_utf8_size_bound("れ"@);
    reveal_strlit("れる");
    lemma_utf8_size_bound("れる"@);
    reveal_strlit("う");
    lemma_utf8_size_bound("う"@);
    reveal_strlit("く");
    lemma_utf8_size_bound("く"@);
    reveal_strlit("ぐ");
    lemma_utf8_size_bound("ぐ"@);
    reveal_strlit("し");
    lemma_utf8_size_bound("し"@);
    reveal_strlit("す");
    lemma_utf8_size_bound("す"@);
    reveal_strlit("つ");
    lemma_utf8_size_bound("つ"@);
    reveal_strlit("ぬ");
    lemma_utf8_size_bound("ぬ"@);
    reveal_strlit("ぶ");
    lemma_utf8_size_bound("ぶ"@);
    reveal_strlit("む");
    lemma_utf8_size_bound("む"@);
    reveal_strlit("る");
    lemma_utf8_size_bound("る"@);
    reveal_strlit("くる");
    lemma_utf8_size_bound("くる"@);
    reveal_strlit("する");
    lemma_utf8_size_bound("する"@);
    reveal_strlit("来");
    lemma_utf8_size_bound("来"@);
    reveal_strlit("来る");
    lemma_utf8_size_bound("来る"@);
    reveal_strlit("來");
    lemma_utf8_size_bound("來"@);
    reveal_strlit("來る");
    lemma_utf8_size_bound("來る"@);
}

fn transform_26() -> (r: Transform)
    ensures
        rules_view(r.rules@) == rules_26(),
{
    let mut rules: Vec<Inflection> = Vec::new();
    rules.push(suffix_inflection("い", "いる", 0, Conditions(Conditions::v1d).with_subconditions()));
    rules.push(suffix_inflection("え", "える", 0, Conditions(Conditions::v1d).with_subconditions()));
    rules.push(suffix_inflection("き", "きる", 0, Conditions(Conditions::v1d).with_subconditions()));
    rules.push(suffix_inflection("ぎ", "ぎる", 0, Conditions(Conditions::v1d).with_subconditions()));
    rules.push(suffix_inflection("け", "ける", 0, Conditions(Conditions::v1d).with_subconditions()));
    rules.push(suffix_inflection("げ", "げる", 0, Conditions(Conditions::v1d).with_subconditions()));
    rules.push(suffix_inflection("じ", "じる", 0, Conditions(Conditions::v1d).with_subconditions()));
    rules.push(suffix_inflection("せ", "せる", 0, Conditions(Conditions::v1d).with_subconditions()));
    rules.push(suffix_inflection("ぜ", "ぜる", 0, Conditions(Conditions::v1d).with_subconditions()));
    rules.push(suffix_inflection("ち", "ちる", 0, Conditions(Conditions::v1d).with_subconditions()));
    rules.push(suffix_inflection("て", "てる", 0, Conditions(Conditions::v1d).with_subconditions()));
    rules.push(suffix_inflection("で", "でる", 0, Conditions(Conditions::v1d).with_subconditions()));
    rules.push(suffix_inflection("に", "にる", 0, Conditions(Conditions::v1d).with_subconditions()));
    rules.push(suffix_inflection("ね", "ねる", 0, Conditions(Conditions::v1d).with_subconditions()));
    rules.push(suffix_inflection("ひ", "ひる", 0, Conditions(Conditions::v1d).with_subconditions()));
    rules.push(suffix_inflection("び", "びる", 0, Conditions(Conditions::v1d).with_subconditions()));
    rules.push(suffix_inflection("へ", "へる", 0, Conditions(Conditions::v1d).with_subconditions()));
    rules.push(suffix_inflection("べ", "べる", 0, Conditions(Conditions::v1d).with_subconditions()));
    rules.push(suffix_inflection("み", "みる", 0, Conditions(Conditions::v1d).with_subconditions()));
    rules.push(suffix_inflection("め", "める", 0, Conditions(Conditions::v1d).with_subconditions()));
    rules.push(suffix_inflection("り", "りる", 0, Conditions(Conditions::v1d).with_subconditions()));
    rules.push(suffix_inflection("れ", "れる", 0, Conditions(Conditions::v1d).with_subconditions()));
    rules.push(suffix_inflection("い", "う", 0, Conditions(Conditions::v5).with_subconditions()));
    rules.push(suffix_inflection("き", "く", 0, Conditions(Conditions::v5).with_subconditions()));
    rules.push(suffix_inflection("ぎ", "ぐ", 0, Conditions(Conditions::v5).with_subconditions()));
    rules.push(suffix_inflection("し", "す", 0, Conditions(Conditions::v5).with_subconditions()));
    rules.push(suffix_inflection("ち", "つ", 0, Conditions(Conditions::v5).with_subconditions()));
    rules.push(suffix_inflection("に", "ぬ", 0, Conditions(Conditions::v5).with_subconditions()));
    rules.push(suffix_inflection("び", "ぶ", 0, Conditions(Conditions::v5).with_subconditions()));
    rules.push(suffix_inflection("み", "む", 0, Conditions(Conditions::v5).with_subconditions()));
    rules.push(suffix_inflection("り", "る", 0, Conditions(Conditions::v5).with_subconditions()));
    rules.push(suffix_inflection("き", "くる", 0, Conditions(Conditions::vk).with_subconditions()));
    rules.push(suffix_inflection("し", "する", 0, Conditions(Conditions::vs).with_subconditions()));
    rules.push(suffix_inflection("来", "来る", 0, Conditions(Conditions::vk).with_subconditions()));
    rules.push(suffix_inflection("來", "來る", 0, Conditions(Conditions::vk).with_subconditions()));
    proof {
        reveal(rules_26);
        assert(rules_view(rules@) =~~= rules_26());
    }
    Transform { name: "continuative", description: "Used to indicate actions that are (being) carried out.\nRefers to 連用形, the part of the verb after conjugating with -ます and dropping ます.\n", rules }
}

/// The rules of `negative`: ending, replacement, conditions in and out,
/// and endings rewritten first.
#[verifier::opaque]
pub open spec fn rules_27() -> Seq<RuleView> {
    seq![
        ("くない"@, "い"@, subconditions_added(Conditions::adj_i), subconditions_added(Conditions::adj_i), Seq::<(Seq<char>, Seq<char>)>::empty()),
        ("ない"@, "る"@, subconditions_added(Conditions::adj_i), subconditions_added(Conditions::v1), Seq::<(Seq<char>, Seq<char>)>::empty()),
        ("かない"@, "く"@, subconditions_added(Conditions::adj_i), subconditions_added(Conditions::v5), Seq::<(Seq<char>, Seq<char>)>::empty()),
        ("がない"@, "ぐ"@, subconditions_added(Conditions::adj_i), subconditions_added(Conditions::v5), Seq::<(Seq<char>, Seq<char>)>::empty()),
        ("さない"@, "す"@, subconditions_added(Conditions::adj_i), subconditions_added(Conditions::v5), Seq::<(Seq<char>, Seq<char>)>::empty()),
        ("たない"@, "つ"@, subconditions_added(Conditions::adj_i), subconditions_added(Conditions::v5), Seq::<(Seq<char>, Seq<char>)>::empty()),
        ("なない"@, "ぬ"@, subconditions_added(Conditions::adj_i), subconditions_added(Conditions::v5), Seq::<(Seq<char>, Seq<char>)>::empty()),
        ("ばない"@, "ぶ"@, subconditions_added(Conditions::adj_i), subconditions_added(Conditions::v5), Seq::<(Seq<char>, Seq<char>)>::empty()),
        ("まない"@, "む"@, subconditions_added(Conditions::adj_i), subconditions_added(Conditions::v5), Seq::<(Seq<char>, Seq<char>)>::empty()),
        ("らない"@, "る"@, subconditions_added(Conditions::adj_i), subconditions_added(Conditions::v5), Seq::<(Seq<char>, Seq<char>)>::empty()),
        ("わない"@, "う"@, subconditions_added(Conditions::adj_i), subconditions_added(Conditions::v5), Seq::<(Seq<char>, Seq<char>)>::empty()),
        ("じない"@, "ずる"@, subconditions_added(Conditions::adj_i), subconditions_added(Conditions::vz), Seq::<(Seq<char>, Seq<char>)>::empty()),
        ("しない"@, "する"@, subconditions_added(Conditions::adj_i), subconditions_added(Conditions::vs), Seq::<(Seq<char>, Seq<char>)>::empty()),
        ("為ない"@, "為る"@, subconditions_added(Conditions::adj_i), subconditions_added(Conditions::vs), Seq::<(Seq<char>, Seq<char>)>::empty()),
        ("こない"@, "くる"@, subconditions_added(Conditions::adj_i), subconditions_added(Conditions::vk), Seq::<(Seq<char>, Seq<char>)>::empty()),
        ("来ない"@, "来る"@, subconditions_added(Conditions::adj_i), subconditions_added(Conditions::vk), Seq::<(Seq<char>, Seq<char>)>::empty()),
        ("來ない"@, "來る"@, subconditions_added(Conditions::adj_i), subconditions_added(Conditions::vk), Seq::<(Seq<char>, Seq<char>)>::empty()),
        ("ません"@, "ます"@, subconditions_added(Conditions::masen), subconditions_added(Conditions::masu), Seq::<(Seq<char>, Seq<char>)>::empty()),
    ]
}

#[verifier::rlimit(60)]
proof fn lemma_rules_27_ok()
    ensures
        forall|i: int| 0 <= i < rules_27().len() ==> #[trigger] rule_view_ok(rules_27()[i]),
        forall|i: int| 0 <= i < rules_27().len() ==> #[trigger] keeps_godan_rows(rules_27()[i]),
{
    reveal(rules_27);
    reveal_strlit("くない");
    lemma_utf8_size_bound("くない"@);
    reveal_strlit("い");
    lemma_utf8_size_bound("い"@);
    reveal_strlit("ない");
    lemma_utf8_size_bound("ない"@);
    reveal_strlit("る");
    lemma_utf8_size_bound("る"@);
    reveal_strlit("かない");
    lemma_utf8_size_bound("かない"@);
    reveal_strlit("く");
    lemma_utf8_size_bound("く"@);
    reveal_strlit("がない");
    lemma_utf8_size_bound("がない"@);
    reveal_strlit("ぐ");
    lemma_utf8_size_bound("ぐ"@);
    reveal_strlit("さない");
    lemma_utf8_size_bound("さない"@);
    reveal_strlit("す");
    lemma_utf8_size_bound("す"@);
    reveal_strlit("たない");
    lemma_utf8_size_bound("たない"@);
    reveal_strlit("つ");
    lemma_utf8_size_bound("つ"@);
    reveal_strlit("なない");
    lemma_utf8_size_bound("なない"@);
    reveal_strlit("ぬ");
    lemma_utf8_size_bound("ぬ"@);
    reveal_strlit("ばない");
    lemma_utf8_size_bound("ばない"@);
    reveal_strlit("ぶ");
    lemma_utf8_size_bound("ぶ"@);
    reveal_strlit("まない");
    lemma_utf8_size_bound("まない"@);
    reveal_strlit("む");
    lemma_utf8_size_bound("む"@);
    reveal_strlit("らない");
    lemma_utf8_size_bound("らない"@);
    reveal_strlit("わない");
    lemma_utf8_size_bound("わない"@);
    reveal_strlit("う");
    lemma_utf8_size_bound("う"@);
    reveal_strlit("じない");
    lemma_utf8_size_bound("じない"@);
    reveal_strlit("ずる");
    lemma_utf8_size_bound("ずる"@);
    reveal_strlit("しない");
    lemma_utf8_size_bound("しない"@);
    reveal_strlit("する");
    lemma_utf8_size_bound("する"@);
    reveal_strlit("為ない");
    lemma_utf8_size_bound("為ない"@);
    reveal_strlit("為る");
    lemma_utf8_size_bound("為る"@);
    reveal_strlit("こない");
    lemma_utf8_size_bound("こない"@);
    reveal_strlit("くる");
    lemma_utf8_size_bound("くる"@);
    reveal_strlit("来ない");
    lemma_utf8_size_bound("来ない"@);
    reveal_strlit("来る");
    lemma_utf8_size_bound("来る"@);
    reveal_strlit("來ない");
    lemma_utf8_size_bound("來ない"@);
    reveal_strlit("來る");
    lemma_utf8_size_bound("來る"@);
    reveal_strlit("ません");
    lemma_utf8_size_bound("ません"@);
    reveal_strlit("ます");
    lemma_utf8_size_bound("ます"@);
}

fn transform_27() -> (r: Transform)
    ensures
        rules_view(r.rules@) == rules_27(),
{
    let mut rules: Vec<Inflection> = Vec::new();
    rules.push(suffix_inflection("くない", "い", Conditions(Conditions::adj_i).with_subconditions(), Conditions(Conditions::adj_i).with_subconditions()));
    rules.push(suffix_inflection("ない", "る", Conditions(Conditions::adj_i).with_subconditions(), Conditions(Conditions::v1).with_subconditions()));
    rules.push(suffix_inflection("かない", "く", Conditions(Conditions::adj_i).with_subconditions(), Conditions(Conditions::v5).with_subconditions()));
    rules.push(suffix_inflection("がない", "ぐ", Conditions(Conditions::adj_i).with_subconditions(), Conditions(Conditions::v5).with_subconditions()));
    rules.push(suffix_inflection("さない", "す", Conditions(Conditions::adj_i).with_subconditions(), Conditions(Conditions::v5).with_subconditions()));
    rules.push(suffix_inflection("たない", "つ", Conditions(Conditions::adj_i).with_subconditions(), Conditions(Conditions::v5).with_subconditions()));
    rules.push(suffix_inflection("なない", "ぬ", Conditions(Conditions::adj_i).with_subconditions(), Conditions(Conditions::v5).with_subconditions()));
    rules.push(suffix_inflection("ばない", "ぶ", Conditions(Conditions::adj_i).with_subconditions(), Conditions(Conditions::v5).with_subconditions()));
    rules.push(suffix_inflection("まない", "む", Conditions(Conditions::adj_i).with_subconditions(), Conditions(Conditions::v5).with_subconditions()));
    rules.push(suffix_inflection("らない", "る", Conditions(Conditions::adj_i).with_subconditions(), Conditions(Conditions::v5).with_subconditions()));
    rules.push(suffix_inflection("わない", "う", Conditions(Conditions::adj_i).with_subconditions(), Conditions(Conditions::v5).with_subconditions()));
    rules.push(suffix_inflection("じない", "ずる", Conditions(Conditions::adj_i).with_subconditions(), Conditions(Conditions::vz).with_subconditions()));
    rules.push(suffix_inflection("しない", "する", Conditions(Conditions::adj_i).with_subconditions(), Conditions(Conditions::vs).with_subconditions()));
    rules.push(suffix_inflection("為ない", "為る", Conditions(Conditions::adj_i).with_subconditions(), Conditions(Conditions::vs).with_subconditions()));
    rules.push(suffix_inflection("こない", "くる", Conditions(Conditions::adj_i).with_subconditions(), Conditions(Conditions::vk).with_subconditions()));
    rules.push(suffix_inflection("来ない", "来る", Conditions(Conditions::adj_i).with_subconditions(), Conditions(Conditions::vk).with_subconditions()));
    rules.push(suffix_inflection("來ない", "來る", Conditions(Conditions::adj_i).with_subconditions(), Conditions(Conditions::vk).with_subconditions()));
    rules.push(suffix_inflection("ません", "ます", Conditions(Conditions::masen).with_subconditions(), Conditions(Conditions::masu).with_subconditions()));
    proof {
        reveal(rules_27);
        assert(rules_view(rules@) =~~= rules_27());
    }
    Transform { name: "negative", description: "1. Negative form of verbs.\n2. Expresses a feeling of solicitation to the other party.\n\nUsage: Attach ない to the irrealis form (未然形) of verbs, くない to the stem of i-adjectives. ない itself conjugates as i-adjective. ます becomes ません.\n", rules }
}

/// The rules of `-さ`: ending, replacement, conditions in and out,
/// and endings rewritten first.
#[verifier::opaque]
pub open spec fn rules_28() -> Seq<RuleView> {
    seq![
        ("さ"@, "い"@, 0u32, subconditions_added(Conditions::adj_i), Seq::<(Seq<char>, Seq<char>)>::empty()),
    ]
}

#[verifier::rlimit(60)]
proof fn lemma_rules_28_ok()
    ensures
        forall|i: int| 0 <= i < rules_28().len() ==> #[trigger] rule_view_ok(rules_28()[i]),
        forall|i: int| 0 <= i < rules_28().len() ==> #[trigger] keeps_godan_rows(rules_28()[i]),
{
    reveal(rules_28);
    reveal_strlit("さ");
    lemma_utf8_size_bound("さ"@);
    reveal_strlit("い");
    lemma_utf8_size_bound("い"@);
}

fn transform_28() -> (r: Transform)
    ensures
        rules_view(r.rules@) == rules_28(),
{
    let mut rules: Vec<Inflection> = Vec::new();
    rules.push(suffix_inflection("さ", "い", 0, Conditions(Conditions::adj_i).with_subconditions()));
    proof {
        reveal(rules_28);
        assert(rules_view(rules@) =~~= rules_28());
    }
    Transform { name: "-さ", description: "Nominalizing suffix of i-adjectives indicating nature, state, mind or degree.\n\nUsage: Attach さ to the stem of i-adjectives.\n", rules }
}

/// The rules of `passive`: ending, replacement, conditions in and out,
/// and endings rewritten first.
#[verifier::opaque]
pub open spec fn rules_29() -> Seq<RuleView> {
    seq![
        ("かれる"@, "く"@, subconditions_added(Conditions::v1), subconditions_added(Conditions::v5), Seq::<(Seq<char>, Seq<char>)>::empty()),
        ("がれる"@, "ぐ"@, subconditions_added(Conditions::v1), subconditions_added(Conditions::v5), Seq::<(Seq<char>, Seq<char>)>::empty()),
        ("される"@, "す"@, subconditions_added(Conditions::v1), subconditions_added(Conditions::v5d | Conditions::v5sp), Seq::<(Seq<char>, Seq<char>)>::empty()),
        ("たれる"@, "つ"@, subconditions_added(Conditions::v1), subconditions_added(Conditions::v5), Seq::<(Seq<char>, Seq<char>)>::empty()),
        ("なれる"@, "ぬ"@, subconditions_added(Conditions::v1), subconditions_added(Conditions::v5), Seq::<(Seq<char>, Seq<char>)>::empty()),
        ("ばれる"@, "ぶ"@, subconditions_added(Conditions::v1), subconditions_added(Conditions::v5), Seq::<(Seq<char>, Seq<char>)>::empty()),
        ("まれる"@, "む"@, subconditions_added(Conditions::v1), subconditions_added(Conditions::v5), Seq::<(Seq<char>, Seq<char>)>::empty()),
        ("われる"@, "う"@, subconditions_added(Conditions::v1), subconditions_added(Conditions::v5), Seq::<(Seq<char>, Seq<char>)>::empty()),
        ("られる"@, "る"@, subconditions_added(Conditions::v1), subconditions_added(Conditions::v5), Seq::<(Seq<char>, Seq<char>)>::empty()),
        ("じされる"@, "ずる"@, subconditions_added(Conditions::v1), subconditions_added(Conditions::vz), Seq::<(Seq<char>, Seq<char>)>::empty()),
        ("ぜされる"@, "ずる"@, subconditions_added(Conditions::v1), subconditions_added(Conditions::vz), Seq::<(Seq<char>, Seq<char>)>::empty()),
        ("される"@, "する"@, subconditions_added(Conditions::v1), subconditions_added(Conditions::vs), Seq::<(Seq<char>, Seq<char>)>::empty()),
        ("為れる"@, "為る"@, subconditions_added(Conditions::v1), subconditions_added(Conditions::vs), Seq::<(Seq<char>, Seq<char>)>::empty()),
        ("こられる"@, "くる"@, subconditions_added(Conditions::v1), subconditions_added(Conditions::vk), Seq::<(Seq<char>, Seq<char>)>::empty()),
        ("来られる"@, "来る"@, subconditions_added(Conditions::v1), subconditions_added(Conditions::vk), Seq::<(Seq<char>, Seq<char>)>::empty()),
        ("來られる"@, "來る"@, subconditions_added(Conditions::v1), subconditions_added(Conditions::vk), Seq::<(Seq<char>, Seq<char>)>::empty()),
    ]
}

#[verifier::rlimit(60)]
proof fn lemma_rules_29_ok()
    ensures
        forall|i: int| 0 <= i < rules_29().len() ==> #[trigger] rule_view_ok(rules_29()[i]),
        forall|i: int| 0 <= i < rules_29().len() ==> #[trigger] keeps_godan_rows(rules_29()[i]),
{
    reveal(rules_29);
    reveal_strlit("かれる");
    lemma_utf8_size_bound("かれる"@);
    reveal_strlit("く");
    lemma_utf8_size_bound("く"@);
    reveal_strlit("がれる");
    lemma_utf8_size_bound("がれる"@);
    reveal_strlit("ぐ");
    lemma_utf8_size_bound("ぐ"@);
    reveal_strlit("される");
    lemma_utf8_size_bound("される"@);
    reveal_strlit("す");
    lemma_utf8_size_bound("す"@);
    reveal_strlit("たれる");
    lemma_utf8_size_bound("たれる"@);
    reveal_strlit("つ");
    lemma_utf8_size_bound("つ"@);
    reveal_strlit("なれる");
    lemma_utf8_size_bound("なれる"@);
    reveal_strlit("ぬ");
    lemma_utf8_size_bound("ぬ"@);
    reveal_strlit("ばれる");
    lemma_utf8_size_bound("ばれる"@);
    reveal_strlit("ぶ");
    lemma_utf8_size_bound("ぶ"@);
    reveal_strlit("まれる");
    lemma_utf8_size_bound("まれる"@);
    reveal_strlit("む");
    lemma_utf8_size_bound("む"@);
    reveal_strlit("われる");
    lemma_utf8_size_bound("われる"@);
    reveal_strlit("う");
    lemma_utf8_size_bound("う"@);
    reveal_strlit("られる");
    lemma_utf8_size_bound("られる"@);
    reveal_strlit("る");
    lemma_utf8_size_bound("る"@);
    reveal_strlit("じされる");
    lemma_utf8_size_bound("じされる"@);
    reveal_strlit("ずる");
    lemma_utf8_size_bound("ずる"@);
    reveal_strlit("ぜされる");
    lemma_utf8_size_bound("ぜされる"@);
    reveal_strlit("する");
    lemma_utf8_size_bound("する"@);
    reveal_strlit("為れる");
    lemma_utf8_size_bound("為れる"@);
    reveal_strlit("為る");
    lemma_utf8_size_bound("為る"@);
    reveal_strlit("こられる");
    lemma_utf8_size_bound("こられる"@);
    reveal_strlit("くる");
    lemma_utf8_size_bound("くる"@);
    reveal_strlit("来られる");
    lemma_utf8_size_bound("来られる"@);
    reveal_strlit("来る");
    lemma_utf8_size_bound("来る"@);
    reveal_strlit("來られる");
    lemma_utf8_size_bound("來られる"@);
    reveal_strlit("來る");
    lemma_utf8_size_bound("來る"@);
}

fn transform_29() -> (r: Transform)
    ensures
        rules_view(r.rules@) == rules_29(),
{
    let mut rules: Vec<Inflection> = Vec::new();
    rules.push(suffix_inflection("かれる", "く", Conditions(Conditions::v1).with_subconditions(), Conditions(Conditions::v5).with_subconditions()));
    rules.push(suffix_inflection("がれる", "ぐ", Conditions(Conditions::v1).with_subconditions(), Conditions(Conditions::v5).with_subconditions()));
    rules.push(suffix_inflection("される", "す", Conditions(Conditions::v1).with_subconditions(), Conditions(Conditions::v5d | Conditions::v5sp).with_subconditions()));
    rules.push(suffix_inflection("たれる", "つ", Conditions(Conditions::v1).with_subconditions(), Conditions(Conditions::v5).with_subconditions()));
    rules.push(suffix_inflection("なれる", "ぬ", Conditions(Conditions::v1).with_subconditions(), Conditions(Conditions::v5).with_subconditions()));
    rules.push(suffix_inflection("ばれる", "ぶ", Conditions(Conditions::v1).with_subconditions(), Conditions(Conditions::v5).with_subconditions()));
    rules.push(suffix_inflection("まれる", "む", Conditions(Conditions::v1).with_subconditions(), Conditions(Conditions::v5).with_subconditions()));
    rules.push(suffix_inflection("われる", "う", Conditions(Conditions::v1).with_subconditions(), Conditions(Conditions::v5).with_subconditions()));
    rules.push(suffix_inflection("られる", "る", Conditions(Conditions::v1).with_subconditions(), Conditions(Conditions::v5).with_subconditions()));
    rules.push(suffix_inflection("じされる", "ずる", Conditions(Conditions::v1).with_subconditions(), Conditions(Conditions::vz).with_subconditions()));
    rules.push(suffix_inflection("ぜされる", "ずる", Conditions(Conditions::v1).with_subconditions(), Conditions(Conditions::vz).with_subconditions()));
    rules.push(suffix_inflection("される", "する", Conditions(Conditions::v1).with_subconditions(), Conditions(Conditions::vs).with_subconditions()));
    rules.push(suffix_inflection("為れる", "為る", Conditions(Conditions::v1).with_subconditions(), Conditions(Conditions::vs).with_subconditions()));
    rules.push(suffix_inflection("こられる", "くる", Conditions(Conditions::v1).with_subconditions(), Conditions(Conditions::vk).with_subconditions()));
    rules.push(suffix_inflection("来られる", "来る", Conditions(Conditions::v1).with_subconditions(), Conditions(Conditions::vk).with_subconditions()));
    rules.push(suffix_inflection("來られる", "來る", Conditions(Conditions::v1).with_subconditions(), Conditions(Conditions::vk).with_subconditions()));
    proof {
        reveal(rules_29);
        assert(rules_view(rules@) =~~= rules_29());
    }
    Transform { name: "passive", description: "1. Indicates an action received from an action performer.\n2. Expresses respect for the subject of action performer.\n", rules }
}

/// The rules of `-た`: ending, replacement, conditions in and out,
/// and endings rewritten first.
#[verifier::opaque]
pub open spec fn rules_30() -> Seq<RuleView> {
    seq![
        ("かった"@, "い"@, subconditions_added(Conditions::ta), subconditions_added(Conditions::adj_i), Seq::<(Seq<char>, Seq<char>)>::empty()),
        ("た"@, "る"@, subconditions_added(Conditions::ta), subconditions_added(Conditions::v1), Seq::<(Seq<char>, Seq<char>)>::empty()),
        ("いた"@, "く"@, subconditions_added(Conditions::ta), subconditions_added(Conditions::v5), Seq::<(Seq<char>, Seq<char>)>::empty()),
        ("いだ"@, "ぐ"@, subconditions_added(Conditions::ta), subconditions_added(Conditions::v5), Seq::<(Seq<char>, Seq<char>)>::empty()),
        ("した"@, "す"@, subconditions_added(Conditions::ta), subconditions_added(Conditions::v5), Seq::<(Seq<char>, Seq<char>)>::empty()),
        ("った"@, "う"@, subconditions_added(Conditions::ta), subconditions_added(Conditions::v5), Seq::<(Seq<char>, Seq<char>)>::empty()),
        ("った"@, "つ"@, subconditions_added(Conditions::ta), subconditions_added(Conditions::v5), Seq::<(Seq<char>, Seq<char>)>::empty()),
        ("った"@, "る"@, subconditions_added(Conditions::ta), subconditions_added(Conditions::v5), Seq::<(Seq<char>, Seq<char>)>::empty()),
        ("んだ"@, "ぬ"@, subconditions_added(Conditions::ta), subconditions_added(Conditions::v5), Seq::<(Seq<char>, Seq<char>)>::empty()),
        ("んだ"@, "ぶ"@, subconditions_added(Conditions::ta), subconditions_added(Conditions::v5), Seq::<(Seq<char>, Seq<char>)>::empty()),
        ("んだ"@, "む"@, subconditions_added(Conditions::ta), subconditions_added(Conditions::v5), Seq::<(Seq<char>, Seq<char>)>::empty()),
        ("じた"@, "ずる"@, subconditions_added(Conditions::ta), subconditions_added(Conditions::vz), Seq::<(Seq<char>, Seq<char>)>::empty()),
        ("した"@, "する"@, subconditions_added(Conditions::ta), subconditions_added(Conditions::vs), Seq::<(Seq<char>, Seq<char>)>::empty()),
        ("為た"@, "為る"@, subconditions_added(Conditions::ta), subconditions_added(Conditions::vs), Seq::<(Seq<char>, Seq<char>)>::empty()),
        ("きた"@, "くる"@, subconditions_added(Conditions::ta), subconditions_added(Conditions::vk), Seq::<(Seq<char>, Seq<char>)>::empty()),
        ("来た"@, "来る"@, subconditions_added(Conditions::ta), subconditions_added(Conditions::vk), Seq::<(Seq<char>, Seq<char>)>::empty()),
        ("來た"@, "來る"@, subconditions_added(Conditions::ta), subconditions_added(Conditions::vk), Seq::<(Seq<char>, Seq<char>)>::empty()),
        ("ました"@, "ます"@, subconditions_added(Conditions::ta), subconditions_added(Conditions::masu), Seq::<(Seq<char>, Seq<char>)>::empty()),
        ("でした"@, ""@, subconditions_added(Conditions::ta), subconditions_added(Conditions::masen), Seq::<(Seq<char>, Seq<char>)>::empty()),
        ("かった"@, ""@, subconditions_added(Conditions::ta), subconditions_added(Conditions::masen | Conditions::n), Seq::<(Seq<char>, Seq<char>)>::empty()),
        ("いった"@, "いく"@, subconditions_added(Conditions::ta), subconditions_added(Conditions::v5), Seq::<(Seq<char>, Seq<char>)>::empty()),
        ("行った"@, "行く"@, subconditions_added(Conditions::ta), subconditions_added(Conditions::v5), Seq::<(Seq<char>, Seq<char>)>::empty()),
        ("逝った"@, "逝く"@, subconditions_added(Conditions::ta), subconditions_added(Conditions::v5), Seq::<(Seq<char>, Seq<char>)>::empty()),
        ("往った"@, "往く"@, subconditions_added(Conditions::ta), subconditions_added(Conditions::v5), Seq::<(Seq<char>, Seq<char>)>::empty()),
        ("こうた"@, "こう"@, subconditions_added(Conditions::ta), subconditions_added(Conditions::v5), Seq::<(Seq<char>, Seq<char>)>::empty()),
        ("とうた"@, "とう"@, subconditions_added(Conditions::ta), subconditions_added(Conditions::v5), Seq::<(Seq<char>, Seq<char>)>::empty()),
        ("請うた"@, "請う"@, subconditions_added(Conditions::ta), subconditions_added(Conditions::v5), Seq::<(Seq<char>, Seq<char>)>::empty()),
        ("乞うた"@, "乞う"@, subconditions_added(Conditions::ta), subconditions_added(Conditions::v5), Seq::<(Seq<char>, Seq<char>)>::empty()),
        ("恋うた"@, "恋う"@, subconditions_added(Conditions::ta), subconditions_added(Conditions::v5), Seq::<(Seq<char>, Seq<char>)>::empty()),
        ("問うた"@, "問う"@, subconditions_added(Conditions::ta), subconditions_added(Conditions::v5), Seq::<(Seq<char>, Seq<char>)>::empty()),
        ("訪うた"@, "訪う"@, subconditions_added(Conditions::ta), subconditions_added(Conditions::v5), Seq::<(Seq<char>, Seq<char>)>::empty()),
        ("宣うた"@, "宣う"@, subconditions_added(Conditions::ta), subconditions_added(Conditions::v5), Seq::<(Seq<char>, Seq<char>)>::empty()),
        ("曰うた"@, "曰う"@, subconditions_added(Conditions::ta), subconditions_added(Conditions::v5), Seq::<(Seq<char>, Seq<char>)>::empty()),
        ("給うた"@, "給う"@, subconditions_added(Conditions::ta), subconditions_added(Conditions::v5), Seq::<(Seq<char>, Seq<char>)>::empty()),
        ("賜うた"@, "賜う"@, subconditions_added(Conditions::ta), subconditions_added(Conditions::v5), Seq::<(Seq<char>, Seq<char>)>::empty()),
        ("揺蕩うた"@, "揺蕩う"@, subconditions_added(Conditions::ta), subconditions_added(Conditions::v5), Seq::<(Seq<char>, Seq<char>)>::empty()),
        ("のたもうた"@, "のたまう"@, subconditions_added(Conditions::ta), subconditions_added(Conditions::v5), Seq::<(Seq<char>, Seq<char>)>::empty()),
        ("たもうた"@, "たまう"@, subconditions_added(Conditions::ta), subconditions_added(Conditions::v5), Seq::<(Seq<char>, Seq<char>)>::empty()),
        ("たゆとうた"@, "たゆたう"@, subconditions_added(Conditions::ta), subconditions_added(Conditions::v5), Seq::<(Seq<char>, Seq<char>)>::empty()),
    ]
}

#[verifier::rlimit(60)]
proof fn lemma_rules_30_ok()
    ensures
        forall|i: int| 0 <= i < rules_30().len() ==> #[trigger] rule_view_ok(rules_30()[i]),
        forall|i: int| 0 <= i < rules_30().len() ==> #[trigger] keeps_godan_rows(rules_30()[i]),
{
    reveal(rules_30);
    reveal_strlit("かった");
    lemma_utf8_size_bound("かった"@);
    reveal_strlit("い");
    lemma_utf8_size_bound("い"@);
    reveal_strlit("た");
    lemma_utf8_size_bound("た"@);
    reveal_strlit("る");
    lemma_utf8_size_bound("る"@);
    reveal_strlit("いた");
    lemma_utf8_size_bound("いた"@);
    reveal_strlit("く");
    lemma_utf8_size_bound("く"@);
    reveal_strlit("いだ");
    lemma_utf8_size_bound("いだ"@);
    reveal_strlit("ぐ");
    lemma_utf8_size_bound("ぐ"@);
    reveal_strlit("した");
    lemma_utf8_size_bound("した"@);
    reveal_strlit("す");
    lemma_utf8_size_bound("す"@);
    reveal_strlit("った");
    lemma_utf8_size_bound("った"@);
    reveal_strlit("う");
    lemma_utf8_size_bound("う"@);
    reveal_strlit("つ");
    lemma_utf8_size_bound("つ"@);
    reveal_strlit("んだ");
    lemma_utf8_size_bound("んだ"@);
    reveal_strlit("ぬ");
    lemma_utf8_size_bound("ぬ"@);
    reveal_strlit("ぶ");
    lemma_utf8_size_bound("ぶ"@);
    reveal_strlit("む");
    lemma_utf8_size_bound("む"@);
    reveal_strlit("じた");
    lemma_utf8_size_bound("じた"@);
    reveal_strlit("ずる");
    lemma_utf8_size_bound("ずる"@);
    reveal_strlit("する");
    lemma_utf8_size_bound("する"@);
    reveal_strlit("為た");
    lemma_utf8_size_bound("為た"@);
    reveal_strlit("為る");
    lemma_utf8_size_bound("為る"@);
    reveal_strlit("きた");
    lemma_utf8_size_bound("きた"@);
    reveal_strlit("くる");
    lemma_utf8_size_bound("くる"@);
    reveal_strlit("来た");
    lemma_utf8_size_bound("来た"@);
    reveal_strlit("来る");
    lemma_utf8_size_bound("来る"@);
    reveal_strlit("來た");
    lemma_utf8_size_bound("來た"@);
    reveal_strlit("來る");
    lemma_utf8_size_bound("來る"@);
    reveal_strlit("ました");
    lemma_utf8_size_bound("ました"@);
    reveal_strlit("ます");
    lemma_utf8_size_bound("ます"@);
    reveal_strlit("でした");
    lemma_utf8_size_bound("でした"@);
    reveal_strlit("");
    lemma_utf8_size_bound(""@);
    reveal_strlit("いった");
    lemma_utf8_size_bound("いった"@);
    reveal_strlit("いく");
    lemma_utf8_size_bound("いく"@);
    reveal_strlit("行った");
    lemma_utf8_size_bound("行った"@);
    reveal_strlit("行く");
    lemma_utf8_size_bound("行く"@);
    reveal_strlit("逝った");
    lemma_utf8_size_bound("逝った"@);
    reveal_strlit("逝く");
    lemma_utf8_size_bound("逝く"@);
    reveal_strlit("往った");
    lemma_utf8_size_bound("往った"@);
    reveal_strlit("往く");
    lemma_utf8_size_bound("往く"@);
    reveal_strlit("こうた");
    lemma_utf8_size_bound("こうた"@);
    reveal_strlit("こう");
    lemma_utf8_size_bound("こう"@);
    reveal_strlit("とうた");
    lemma_utf8_size_bound("とうた"@);
    reveal_strlit("とう");
    lemma_utf8_size_bound("とう"@);
    reveal_strlit("請うた");
    lemma_utf8_size_bound("請うた"@);
    reveal_strlit("請う");
    lemma_utf8_size_bound("請う"@);
    reveal_strlit("乞うた");
    lemma_utf8_size_bound("乞うた"@);
    reveal_strlit("乞う");
    lemma_utf8_size_bound("乞う"@);
    reveal_strlit("恋うた");
    lemma_utf8_size_bound("恋うた"@);
    reveal_strlit("恋う");
    lemma_utf8_size_bound("恋う"@);
    reveal_strlit("問うた");
    lemma_utf8_size_bound("問うた"@);
    reveal_strlit("問う");
    lemma_utf8_size_bound("問う"@);
    reveal_strlit("訪うた");
    lemma_utf8_size_bound("訪うた"@);
    reveal_strlit("訪う");
    lemma_utf8_size_bound("訪う"@);
    reveal_strlit("宣うた");
    lemma_utf8_size_bound("宣うた"@);
    reveal_strlit("宣う");
    lemma_utf8_size_bound("宣う"@);
    reveal_strlit("曰うた");
    lemma_utf8_size_bound("曰うた"@);
    reveal_strlit("曰う");
    lemma_utf8_size_bound("曰う"@);
    reveal_strlit("給うた");
    lemma_utf8_size_bound("給うた"@);
    reveal_strlit("給う");
    lemma_utf8_size_bound("給う"@);
    reveal_strlit("賜うた");
    lemma_utf8_size_bound("賜うた"@);
    reveal_strlit("賜う");
    lemma_utf8_size_bound("賜う"@);
    reveal_strlit("揺蕩うた");
    lemma_utf8_size_bound("揺蕩うた"@);
    reveal_strlit("揺蕩う");
    lemma_utf8_size_bound("揺蕩う"@);
    reveal_strlit("のたもうた");
    lemma_utf8_size_bound("のたもうた"@);
    reveal_strlit("のたまう");
    lemma_utf8_size_bound("のたまう"@);
    reveal_strlit("たもうた");
    lemma_utf8_size_bound("たもうた"@);
    reveal_strlit("たまう");
    lemma_utf8_size_bound("たまう"@);
    reveal_strlit("たゆとうた");
    lemma_utf8_size_bound("たゆとうた"@);
    reveal_strlit("たゆたう");
    lemma_utf8_size_bound("たゆたう"@);
}

fn transform_30() -> (r: Transform)
    ensures
        rules_view(r.rules@) == rules_30(),
{
    let mut rules: Vec<Inflection> = Vec::new();
    rules.push(suffix_inflection("かった", "い", Conditions(Conditions::ta).with_subconditions(), Conditions(Conditions::adj_i).with_subconditions()));
    rules.push(suffix_inflection("た", "る", Conditions(Conditions::ta).with_subconditions(), Conditions(Conditions::v1).with_subconditions()));
    rules.push(suffix_inflection("いた", "く", Conditions(Conditions::ta).with_subconditions(), Conditions(Conditions::v5).with_subconditions()));
    rules.push(suffix_inflection("いだ", "ぐ", Conditions(Conditions::ta).with_subconditions(), Conditions(Conditions::v5).with_subconditions()));
    rules.push(suffix_inflection("した", "す", Conditions(Conditions::ta).with_subconditions(), Conditions(Conditions::v5).with_subconditions()));
    rules.push(suffix_inflection("った", "う", Conditions(Conditions::ta).with_subconditions(), Conditions(Conditions::v5).with_subconditions()));
    rules.push(suffix_inflection("った", "つ", Conditions(Conditions::ta).with_subconditions(), Conditions(Conditions::v5).with_subconditions()));
    rules.push(suffix_inflection("った", "る", Conditions(Conditions::ta).with_subconditions(), Conditions(Conditions::v5).with_subconditions()));
    rules.push(suffix_inflection("んだ", "ぬ", Conditions(Conditions::ta).with_subconditions(), Conditions(Conditions::v5).with_subconditions()));
    rules.push(suffix_inflection("んだ", "ぶ", Conditions(Conditions::ta).with_subconditions(), Conditions(Conditions::v5).with_subconditions()));
    rules.push(suffix_inflection("んだ", "む", Conditions(Conditions::ta).with_subconditions(), Conditions(Conditions::v5).with_subconditions()));
    rules.push(suffix_inflection("じた", "ずる", Conditions(Conditions::ta).with_subconditions(), Conditions(Conditions::vz).with_subconditions()));
    rules.push(suffix_inflection("した", "する", Conditions(Conditions::ta).with_subconditions(), Conditions(Conditions::vs).with_subconditions()));
    rules.push(suffix_inflection("為た", "為る", Conditions(Conditions::ta).with_subconditions(), Conditions(Conditions::vs).with_subconditions()));
    rules.push(suffix_inflection("きた", "くる", Conditions(Conditions::ta).with_subconditions(), Conditions(Conditions::vk).with_subconditions()));
    rules.push(suffix_inflection("来た", "来る", Conditions(Conditions::ta).with_subconditions(), Conditions(Conditions::vk).with_subconditions()));
    rules.push(suffix_inflection("來た", "來る", Conditions(Conditions::ta).with_subconditions(), Conditions(Conditions::vk).with_subconditions()));
    rules.push(suffix_inflection("ました", "ます", Conditions(Conditions::ta).with_subconditions(), Conditions(Conditions::masu).with_subconditions()));
    rules.push(suffix_inflection("でした", "", Conditions(Conditions::ta).with_subconditions(), Conditions(Conditions::masen).with_subconditions()));
    rules.push(suffix_inflection("かった", "", Conditions(Conditions::ta).with_subconditions(), Conditions(Conditions::masen | Conditions::n).with_subconditions()));
    rules.push(suffix_inflection("いった", "いく", Conditions(Conditions::ta).with_subconditions(), Conditions(Conditions::v5).with_subconditions()));
    rules.push(suffix_inflection("行った", "行く", Conditions(Conditions::ta).with_subconditions(), Conditions(Conditions::v5).with_subconditions()));
    rules.push(suffix_inflection("逝った", "逝く", Conditions(Conditions::ta).with_subconditions(), Conditions(Conditions::v5).with_subconditions()));
    rules.push(suffix_inflection("往った", "往く", Conditions(Conditions::ta).with_subconditions(), Conditions(Conditions::v5).with_subconditions()));
    rules.push(suffix_inflection("こうた", "こう", Conditions(Conditions::ta).with_subconditions(), Conditions(Conditions::v5).with_subconditions()));
    rules.push(suffix_inflection("とうた", "とう", Conditions(Conditions::ta).with_subconditions(), Conditions(Conditions::v5).with_subconditions()));
    rules.push(suffix_inflection("請うた", "請う", Conditions(Conditions::ta).with_subconditions(), Conditions(Conditions::v5).with_subconditions()));
    rules.push(suffix_inflection("乞うた", "乞う", Conditions(Conditions::ta).with_subconditions(), Conditions(Conditions::v5).with_subconditions()));
    rules.push(suffix_inflection("恋うた", "恋う", Conditions(Conditions::ta).with_subconditions(), Conditions(Conditions::v5).with_subconditions()));
    rules.push(suffix_inflection("問うた", "問う", Conditions(Conditions::ta).with_subconditions(), Conditions(Conditions::v5).with_subconditions()));
    rules.push(suffix_inflection("訪うた", "訪う", Conditions(Conditions::ta).with_subconditions(), Conditions(Conditions::v5).with_subconditions()));
    rules.push(suffix_inflection("宣うた", "宣う", Conditions(Conditions::ta).with_subconditions(), Conditions(Conditions::v5).with_subconditions()));
    rules.push(suffix_inflection("曰うた", "曰う", Conditions(Conditions::ta).with_subconditions(), Conditions(Conditions::v5).with_subconditions()));
    rules.push(suffix_inflection("給うた", "給う", Conditions(Conditions::ta).with_subconditions(), Conditions(Conditions::v5).with_subconditions()));
    rules.push(suffix_inflection("賜うた", "賜う", Conditions(Conditions::ta).with_subconditions(), Conditions(Conditions::v5).with_subconditions()));
    rules.push(suffix_inflection("揺蕩うた", "揺蕩う", Conditions(Conditions::ta).with_subconditions(), Conditions(Conditions::v5).with_subconditions()));
    rules.push(suffix_inflection("のたもうた", "のたまう", Conditions(Conditions::ta).with_subconditions(), Conditions(Conditions::v5).with_subconditions()));
    rules.push(suffix_inflection("たもうた", "たまう", Conditions(Conditions::ta).with_subconditions(), Conditions(Conditions::v5).with_subconditions()));
    rules.push(suffix_inflection("たゆとうた", "たゆたう", Conditions(Conditions::ta).with_subconditions(), Conditions(Conditions::v5).with_subconditions()));
    proof {
        reveal(rules_30);
        assert(rules_view(rules@) =~~= rules_30());
    }
    Transform { name: "-た", description: "1. Indicates a reality that has happened in the past.\n2. Indicates the completion of an action.\n3. Indicates the confirmation of a matter.\n4. Indicates the speaker\\'s confidence that the action will definitely be fulfilled.\n5. Indicates the events that occur before the main clause are represented as relative past.\n6. Indicates a mild imperative/command.\n\nUsage: Attach た to the continuative form (連用形) of verbs after euphonic change form, かった to the stem of i-adjectives.\n", rules }
}

/// The rules of `-ます`: ending, replacement, conditions in and out,
/// and endings rewritten first.
#[verifier::opaque]
pub open spec fn rules_31() -> Seq<RuleView> {
    seq![
        ("ます"@, "る"@, subconditions_added(Conditions::masu), subconditions_added(Conditions::v1), Seq::<(Seq<char>, Seq<char>)>::empty()),
        ("います"@, "う"@, subconditions_added(Conditions::masu), subconditions_added(Conditions::v5d), Seq::<(Seq<char>, Seq<char>)>::empty()),
        ("きます"@, "く"@, subconditions_added(Conditions::masu), subconditions_added(Conditions::v5d), Seq::<(Seq<char>, Seq<char>)>::empty()),
        ("ぎます"@, "ぐ"@, subconditions_added(Conditions::masu), subconditions_added(Conditions::v5d), Seq::<(Seq<char>, Seq<char>)>::empty()),
        ("します"@, "す"@, subconditions_added(Conditions::masu), subconditions_added(Conditions::v5d | Conditions::v5s), Seq::<(Seq<char>, Seq<char>)>::empty()),
        ("ちます"@, "つ"@, subconditions_added(Conditions::masu), subconditions_added(Conditions::v5d), Seq::<(Seq<char>, Seq<char>)>::empty()),
        ("にます"@, "ぬ"@, subconditions_added(Conditions::masu), subconditions_added(Conditions::v5d), Seq::<(Seq<char>, Seq<char>)>::empty()),
        ("びます"@, "ぶ"@, subconditions_added(Conditions::masu), subconditions_added(Conditions::v5d), Seq::<(Seq<char>, Seq<char>)>::empty()),
        ("みます"@, "む"@, subconditions_added(Conditions::masu), subconditions_added(Conditions::v5d), Seq::<(Seq<char>, Seq<char>)>::empty()),
        ("ります"@, "る"@, subconditions_added(Conditions::masu), subconditions_added(Conditions::v5d), Seq::<(Seq<char>, Seq<char>)>::empty()),
        ("じます"@, "ずる"@, subconditions_added(Conditions::masu), subconditions_added(Conditions::vz), Seq::<(Seq<char>, Seq<char>)>::empty()),
        ("します"@, "する"@, subconditions_added(Conditions::masu), subconditions_added(Conditions::vs), Seq::<(Seq<char>, Seq<char>)>::empty()),
        ("為ます"@, "為る"@, subconditions_added(Conditions::masu), subconditions_added(Conditions::vs), Seq::<(Seq<char>, Seq<char>)>::empty()),
        ("きます"@, "くる"@, subconditions_added(Conditions::masu), subconditions_added(Conditions::vk), Seq::<(Seq<char>, Seq<char>)>::empty()),
        ("来ます"@, "来る"@, subconditions_added(Conditions::masu), subconditions_added(Conditions::vk), Seq::<(Seq<char>, Seq<char>)>::empty()),
        ("來ます"@, "來る"@, subconditions_added(Conditions::masu), subconditions_added(Conditions::vk), Seq::<(Seq<char>, Seq<char>)>::empty()),
        ("くあります"@, "い"@, subconditions_added(Conditions::masu), subconditions_added(Conditions::adj_i), Seq::<(Seq<char>, Seq<char>)>::empty()),
    ]
}

#[verifier::rlimit(60)]
proof fn lemma_rules_31_ok()
    ensures
        forall|i: int| 0 <= i < rules_31().len() ==> #[trigger] rule_view_ok(rules_31()[i]),
        forall|i: int| 0 <= i < rules_31().len() ==> #[trigger] keeps_godan_rows(rules_31()[i]),
{
    reveal(rules_31);
    reveal_strlit("ます");
    lemma_utf8_size_bound("ます"@);
    reveal_strlit("る");
    lemma_utf8_size_bound("る"@);
    reveal_strlit("います");
    lemma_utf8_size_bound("います"@);
    reveal_strlit("う");
    lemma_utf8_size_bound("う"@);
    reveal_strlit("きます");
    lemma_utf8_size_bound("きます"@);
    reveal_strlit("く");
    lemma_utf8_size_bound("く"@);
    reveal_strlit("ぎます");
    lemma_utf8_size_bound("ぎます"@);
    reveal_strlit("ぐ");
    lemma_utf8_size_bound("ぐ"@);
    reveal_strlit("します");
    lemma_utf8_size_bound("します"@);
    reveal_strlit("す");
    lemma_utf8_size_bound("す"@);
    reveal_strlit("ちます");
    lemma_utf8_size_bound("ちます"@);
    reveal_strlit("つ");
    lemma_utf8_size_bound("つ"@);
    reveal_strlit("にます");
    lemma_utf8_size_bound("にます"@);
    reveal_strlit("ぬ");
    lemma_utf8_size_bound("ぬ"@);
    reveal_strlit("びます");
    lemma_utf8_size_bound("びます"@);
    reveal_strlit("ぶ");
    lemma_utf8_size_bound("ぶ"@);
    reveal_strlit("みます");
    lemma_utf8_size_bound("みます"@);
    reveal_strlit("む");
    lemma_utf8_size_bound("む"@);
    reveal_strlit("ります");
    lemma_utf8_size_bound("ります"@);
    reveal_strlit("じます");
    lemma_utf8_size_bound("じます"@);
    reveal_strlit("ずる");
    lemma_utf8_size_bound("ずる"@);
    reveal_strlit("する");
    lemma_utf8_size_bound("する"@);
    reveal_strlit("為ます");
    lemma_utf8_size_bound("為ます"@);
    reveal_strlit("為る");
    lemma_utf8_size_bound("為る"@);
    reveal_strlit("くる");
    lemma_utf8_size_bound("くる"@);
    reveal_strlit("来ます");
    lemma_utf8_size_bound("来ます"@);
    reveal_strlit("来る");
    lemma_utf8_size_bound("来る"@);
    reveal_strlit("來ます");
    lemma_utf8_size_bound("來ます"@);
    reveal_strlit("來る");
    lemma_utf8_size_bound("來る"@);
    reveal_strlit("くあります");
    lemma_utf8_size_bound("くあります"@);
    reveal_strlit("い");
    lemma_utf8_size_bound("い"@);
}

fn transform_31() -> (r: Transform)
    ensures
        rules_view(r.rules@) == rules_31(),
{
    let mut rules: Vec<Inflection> = Vec::new();
    rules.push(suffix_inflection("ます", "る", Conditions(Conditions::masu).with_subconditions(), Conditions(Conditions::v1).with_subconditions()));
    rules.push(suffix_inflection("います", "う", Conditions(Conditions::masu).with_subconditions(), Conditions(Conditions::v5d).with_subconditions()));
    rules.push(suffix_inflection("きます", "く", Conditions(Conditions::masu).with_subconditions(), Conditions(Conditions::v5d).with_subconditions()));
    rules.push(suffix_inflection("ぎます", "ぐ", Conditions(Conditions::masu).with_subconditions(), Conditions(Conditions::v5d).with_subconditions()));
    rules.push(suffix_inflection("します", "す", Conditions(Conditions::masu).with_subconditions(), Conditions(Conditions::v5d | Conditions::v5s).with_subconditions()));
    rules.push(suffix_inflection("ちます", "つ", Conditions(Conditions::masu).with_subconditions(), Conditions(Conditions::v5d).with_subconditions()));
    rules.push(suffix_inflection("にます", "ぬ", Conditions(Conditions::masu).with_subconditions(), Conditions(Conditions::v5d).with_subconditions()));
    rules.push(suffix_inflection("びます", "ぶ", Conditions(Conditions::masu).with_subconditions(), Conditions(Conditions::v5d).with_subconditions()));
    rules.push(suffix_inflection("みます", "む", Conditions(Conditions::masu).with_subconditions(), Conditions(Conditions::v5d).with_subconditions()));
    rules.push(suffix_inflection("ります", "る", Conditions(Conditions::masu).with_subconditions(), Conditions(Conditions::v5d).with_subconditions()));
    rules.push(suffix_inflection("じます", "ずる", Conditions(Conditions::masu).with_subconditions(), Conditions(Conditions::vz).with_subconditions()));
    rules.push(suffix_inflection("します", "する", Conditions(Conditions::masu).with_subconditions(), Conditions(Conditions::vs).with_subconditions()));
    rules.push(suffix_inflection("為ます", "為る", Conditions(Conditions::masu).with_subconditions(), Conditions(Conditions::vs).with_subconditions()));
    rules.push(suffix_inflection("きます", "くる", Conditions(Conditions::masu).with_subconditions(), Conditions(Conditions::vk).with_subconditions()));
    rules.push(suffix_inflection("来ます", "来る", Conditions(Conditions::masu).with_subconditions(), Conditions(Conditions::vk).with_subconditions()));
    rules.push(suffix_inflection("來ます", "來る", Conditions(Conditions::masu).with_subconditions(), Conditions(Conditions::vk).with_subconditions()));
    rules.push(suffix_inflection("くあります", "い", Conditions(Conditions::masu).with_subconditions(), Conditions(Conditions::adj_i).with_subconditions()));
    proof {
        reveal(rules_31);
        assert(rules_view(rules@) =~~= rules_31());
    }
    Transform { name: "-ます", description: "Polite conjugation of verbs and adjectives.\n\nUsage: Attach ます to the continuative form (連用形) of verbs.\n", rules }
}

/// The rules of `potential`: ending, replacement, conditions in and out,
/// and endings rewritten first.
#[verifier::opaque]
pub open spec fn rules_32() -> Seq<RuleView> {
    seq![
        ("れる"@, "る"@, subconditions_added(Conditions::v1), subconditions_added(Conditions::v1 | Conditions::v5d), Seq::<(Seq<char>, Seq<char>)>::empty()),
        ("える"@, "う"@, subconditions_added(Conditions::v1), subconditions_added(Conditions::v5d), Seq::<(Seq<char>, Seq<char>)>::empty()),
        ("ける"@, "く"@, subconditions_added(Conditions::v1), subconditions_added(Conditions::v5d), Seq::<(Seq<char>, Seq<char>)>::empty()),
        ("げる"@, "ぐ"@, subconditions_added(Conditions::v1), subconditions_added(Conditions::v5d), Seq::<(Seq<char>, Seq<char>)>::empty()),
        ("せる"@, "す"@, subconditions_added(Conditions::v1), subconditions_added(Conditions::v5d), Seq::<(Seq<char>, Seq<char>)>::empty()),
        ("てる"@, "つ"@, subconditions_added(Conditions::v1), subconditions_added(Conditions::v5d), Seq::<(Seq<char>, Seq<char>)>::empty()),
        ("ねる"@, "ぬ"@, subconditions_added(Conditions::v1), subconditions_added(Conditions::v5d), Seq::<(Seq<char>, Seq<char>)>::empty()),
        ("べる"@, "ぶ"@, subconditions_added(Conditions::v1), subconditions_added(Conditions::v5d), Seq::<(Seq<char>, Seq<char>)>::empty()),
        ("める"@, "む"@, subconditions_added(Conditions::v1), subconditions_added(Conditions::v5d), Seq::<(Seq<char>, Seq<char>)>::empty()),
        ("できる"@, "する"@, subconditions_added(Conditions::v1), subconditions_added(Conditions::vs), Seq::<(Seq<char>, Seq<char>)>::empty()),
        ("出来る"@, "する"@, subconditions_added(Conditions::v1), subconditions_added(Conditions::vs), Seq::<(Seq<char>, Seq<char>)>::empty()),
        ("これる"@, "くる"@, subconditions_added(Conditions::v1), subconditions_added(Conditions::vk), Seq::<(Seq<char>, Seq<char>)>::empty()),
        ("来れる"@, "来る"@, subconditions_added(Conditions::v1), subconditions_added(Conditions::vk), Seq::<(Seq<char>, Seq<char>)>::empty()),
        ("來れる"@, "來る"@, subconditions_added(Conditions::v1), subconditions_added(Conditions::vk), Seq::<(Seq<char>, Seq<char>)>::empty()),
    ]
}

#[verifier::rlimit(60)]
proof fn lemma_rules_32_ok()
    ensures
        forall|i: int| 0 <= i < rules_32().len() ==> #[trigger] rule_view_ok(rules_32()[i]),
        forall|i: int| 0 <= i < rules_32().len() ==> #[trigger] keeps_godan_rows(rules_32()[i]),
{
    reveal(rules_32);
    reveal_strlit("れる");
    lemma_utf8_size_bound("れる"@);
    reveal_strlit("る");
    lemma_utf8_size_bound("る"@);
    reveal_strlit("える");
    lemma_utf8_size_bound("える"@);
    reveal_strlit("う");
    lemma_utf8_size_bound("う"@);
    reveal_strlit("ける");
    lemma_utf8_size_bound("ける"@);
    reveal_strlit("く");
    lemma_utf8_size_bound("く"@);
    reveal_strlit("げる");
    lemma_utf8_size_bound("げる"@);
    reveal_strlit("ぐ");
    lemma_utf8_size_bound("ぐ"@);
    reveal_strlit("せる");
    lemma_utf8_size_bound("せる"@);
    reveal_strlit("す");
    lemma_utf8_size_bound("す"@);
    reveal_strlit("てる");
    lemma_utf8_size_bound("てる"@);
    reveal_strlit("つ");
    lemma_utf8_size_bound("つ"@);
    reveal_strlit("ねる");
    lemma_utf8_size_bound("ねる"@);
    reveal_strlit("ぬ");
    lemma_utf8_size_bound("ぬ"@);
    reveal_strlit("べる");
    lemma_utf8_size_bound("べる"@);
    reveal_strlit("ぶ");
    lemma_utf8_size_bound("ぶ"@);
    reveal_strlit("める");
    lemma_utf8_size_bound("める"@);
    reveal_strlit("む");
    lemma_utf8_size_bound("む"@);
    reveal_strlit("できる");
    lemma_utf8_size_bound("できる"@);
    reveal_strlit("する");
    lemma_utf8_size_bound("する"@);
    reveal_strlit("出来る");
    lemma_utf8_size_bound("出来る"@);
    reveal_strlit("これる");
    lemma_utf8_size_bound("これる"@);
    reveal_strlit("くる");
    lemma_utf8_size_bound("くる"@);
    reveal_strlit("来れる");
    lemma_utf8_size_bound("来れる"@);
    reveal_strlit("来る");
    lemma_utf8_size_bound("来る"@);
    reveal_strlit("來れる");
    lemma_utf8_size_bound("來れる"@);
    reveal_strlit("來る");
    lemma_utf8_size_bound("來る"@);
}

fn transform_32() -> (r: Transform)
    ensures
        rules_view(r.rules@) == rules_32(),
{
    let mut rules: Vec<Inflection> = Vec::new();
    rules.push(suffix_inflection("れる", "る", Conditions(Conditions::v1).with_subconditions(), Conditions(Conditions::v1 | Conditions::v5d).with_subconditions()));
    rules.push(suffix_inflection("える", "う", Conditions(Conditions::v1).with_subconditions(), Conditions(Conditions::v5d).with_subconditions()));
    rules.push(suffix_inflection("ける", "く", Conditions(Conditions::v1).with_subconditions(), Conditions(Conditions::v5d).with_subconditions()));
    rules.push(suffix_inflection("げる", "ぐ", Conditions(Conditions::v1).with_subconditions(), Conditions(Conditions::v5d).with_subconditions()));
    rules.push(suffix_inflection("せる", "す", Conditions(Conditions::v1).with_subconditions(), Conditions(Conditions::v5d).with_subconditions()));
    rules.push(suffix_inflection("てる", "つ", Conditions(Conditions::v1).with_subconditions(), Conditions(Conditions::v5d).with_subconditions()));
    rules.push(suffix_inflection("ねる", "ぬ", Conditions(Conditions::v1).with_subconditions(), Conditions(Conditions::v5d).with_subconditions()));
    rules.push(suffix_inflection("べる", "ぶ", Conditions(Conditions::v1).with_subconditions(), Conditions(Conditions::v5d).with_subconditions()));
    rules.push(suffix_inflection("める", "む", Conditions(Conditions::v1).with_subconditions(), Conditions(Conditions::v5d).with_subconditions()));
    rules.push(suffix_inflection("できる", "する", Conditions(Conditions::v1).with_subconditions(), Conditions(Conditions::vs).with_subconditions()));
    rules.push(suffix_inflection("出来る", "する", Conditions(Conditions::v1).with_subconditions(), Conditions(Conditions::vs).with_subconditions()));
    rules.push(suffix_inflection("これる", "くる", Conditions(Conditions::v1).with_subconditions(), Conditions(Conditions::vk).with_subconditions()));
    rules.push(suffix_inflection("来れる", "来る", Conditions(Conditions::v1).with_subconditions(), Conditions(Conditions::vk).with_subconditions()));
    rules.push(suffix_inflection("來れる", "來る", Conditions(Conditions::v1).with_subconditions(), Conditions(Conditions::vk).with_subconditions()));
    proof {
        reveal(rules_32);
        assert(rules_view(rules@) =~~= rules_32());
    }
    Transform { name: "potential", description: "Indicates a state of being (naturally) capable of doing an action.\n\nUsage: Attach (ら)れる to the irrealis form (未然形) of ichidan verbs.\n       Attach る to the imperative form (命令形) of godan verbs.\n\nIrregularities: する becomes できる, くる becomes こ(ら)れる\n", rules }
}

/// The rules of `potential or passive`: ending, replacement, conditions in and out,
/// and endings rewritten first.
#[verifier::opaque]
pub open spec fn rules_33() -> Seq<RuleView> {
    seq![
        ("られる"@, "る"@, subconditions_added(Conditions::v1), subconditions_added(Conditions::v1), Seq::<(Seq<char>, Seq<char>)>::empty()),
        ("ざれる"@, "ずる"@, subconditions_added(Conditions::v1), subconditions_added(Conditions::vz), Seq::<(Seq<char>, Seq<char>)>::empty()),
        ("ぜられる"@, "ずる"@, subconditions_added(Conditions::v1), subconditions_added(Conditions::vz), Seq::<(Seq<char>, Seq<char>)>::empty()),
        ("せられる"@, "する"@, subconditions_added(Conditions::v1), subconditions_added(Conditions::vs), Seq::<(Seq<char>, Seq<char>)>::empty()),
        ("為られる"@, "為る"@, subconditions_added(Conditions::v1), subconditions_added(Conditions::vs), Seq::<(Seq<char>, Seq<char>)>::empty()),
        ("こられる"@, "くる"@, subconditions_added(Conditions::v1), subconditions_added(Conditions::vk), Seq::<(Seq<char>, Seq<char>)>::empty()),
        ("来られる"@, "来る"@, subconditions_added(Conditions::v1), subconditions_added(Conditions::vk), Seq::<(Seq<char>, Seq<char>)>::empty()),
        ("來られる"@, "來る"@, subconditions_added(Conditions::v1), subconditions_added(Conditions::vk), Seq::<(Seq<char>, Seq<char>)>::empty()),
    ]
}

#[verifier::rlimit(60)]
proof fn lemma_rules_33_ok()
    ensures
        forall|i: int| 0 <= i < rules_33().len() ==> #[trigger] rule_view_ok(rules_33()[i]),
        forall|i: int| 0 <= i < rules_33().len() ==> #[trigger] keeps_godan_rows(rules_33()[i]),
{
    reveal(rules_33);
    reveal_strlit("られる");
    lemma_utf8_size_bound("られる"@);
    reveal_strlit("る");
    lemma_utf8_size_bound("る"@);
    reveal_strlit("ざれる");
    lemma_utf8_size_bound("ざれる"@);
    reveal_strlit("ずる");
    lemma_utf8_size_bound("ずる"@);
    reveal_strlit("ぜられる");
    lemma_utf8_size_bound("ぜられる"@);
    reveal_strlit("せられる");
    lemma_utf8_size_bound("せられる"@);
    reveal_strlit("する");
    lemma_utf8_size_bound("する"@);
    reveal_strlit("為られる");
    lemma_utf8_size_bound("為られる"@);
    reveal_strlit("為る");
    lemma_utf8_size_bound("為る"@);
    reveal_strlit("こられる");
    lemma_utf8_size_bound("こられる"@);
    reveal_strlit("くる");
    lemma_utf8_size_bound("くる"@);
    reveal_strlit("来られる");
    lemma_utf8_size_bound("来られる"@);
    reveal_strlit("来る");
    lemma_utf8_size_bound("来る"@);
    reveal_strlit("來られる");
    lemma_utf8_size_bound("來られる"@);
    reveal_strlit("來る");
    lemma_utf8_size_bound("來る"@);
}

fn transform_33() -> (r: Transform)
    ensures
        rules_view(r.rules@) == rules_33(),
{
    let mut rules: Vec<Inflection> = Vec::new();
    rules.push(suffix_inflection("られる", "る", Conditions(Conditions::v1).with_subconditions(), Conditions(Conditions::v1).with_subconditions()));
    rules.push(suffix_inflection("ざれる", "ずる", Conditions(Conditions::v1).with_subconditions(), Conditions(Conditions::vz).with_subconditions()));
    rules.push(suffix_inflection("ぜられる", "ずる", Conditions(Conditions::v1).with_subconditions(), Conditions(Conditions::vz).with_subconditions()));
    rules.push(suffix_inflection("せられる", "する", Conditions(Conditions::v1).with_subconditions(), Conditions(Conditions::vs).with_subconditions()));
    rules.push(suffix_inflection("為られる", "為る", Conditions(Conditions::v1).with_subconditions(), Conditions(Conditions::vs).with_subconditions()));
    rules.push(suffix_inflection("こられる", "くる", Conditions(Conditions::v1).with_subconditions(), Conditions(Conditions::vk).with_subconditions()));
    rules.push(suffix_inflection("来られる", "来る", Conditions(Conditions::v1).with_subconditions(), Conditions(Conditions::vk).with_subconditions()));
    rules.push(suffix_inflection("來られる", "來る", Conditions(Conditions::v1).with_subconditions(), Conditions(Conditions::vk).with_subconditions()));
    proof {
        reveal(rules_33);
        assert(rules_view(rules@) =~~= rules_33());
    }
    Transform { name: "potential or passive", description: "1. Indicates an action received from an action performer.\n2. Expresses respect for the subject of action performer.\n3. Indicates a state of being (naturally) capable of doing an action.\n\nUsage: Attach られる to the irrealis form (未然形) of ichidan verbs.\n\nIrregularities: する becomes せられる, くる becomes こられる\n", rules }
}

/// The rules of `volitional`: ending, replacement, conditions in and out,
/// and endings rewritten first.
#[verifier::opaque]
pub open spec fn rules_34() -> Seq<RuleView> {
    seq![
        ("よう"@, "る"@, 0u32, subconditions_added(Conditions::v1), Seq::<(Seq<char>, Seq<char>)>::empty()),
        ("おう"@, "う"@, 0u32, subconditions_added(Conditions::v5), Seq::<(Seq<char>, Seq<char>)>::empty()),
        ("こう"@, "く"@, 0u32, subconditions_added(Conditions::v5), Seq::<(Seq<char>, Seq<char>)>::empty()),
        ("ごう"@, "ぐ"@, 0u32, subconditions_added(Conditions::v5), Seq::<(Seq<char>, Seq<char>)>::empty()),
        ("そう"@, "す"@, 0u32, subconditions_added(Conditions::v5), Seq::<(Seq<char>, Seq<char>)>::empty()),
        ("とう"@, "つ"@, 0u32, subconditions_added(Conditions::v5), Seq::<(Seq<char>, Seq<char>)>::empty()),
        ("のう"@, "ぬ"@, 0u32, subconditions_added(Conditions::v5), Seq::<(Seq<char>, Seq<char>)>::empty()),
        ("ぼう"@, "ぶ"@, 0u32, subconditions_added(Conditions::v5), Seq::<(Seq<char>, Seq<char>)>::empty()),
        ("もう"@, "む"@, 0u32, subconditions_added(Conditions::v5), Seq::<(Seq<char>, Seq<char>)>::empty()),
        ("ろう"@, "る"@, 0u32, subconditions_added(Conditions::v5), Seq::<(Seq<char>, Seq<char>)>::empty()),
        ("じよう"@, "ずる"@, 0u32, subconditions_added(Conditions::vz), Seq::<(Seq<char>, Seq<char>)>::empty()),
        ("しよう"@, "する"@, 0u32, subconditions_added(Conditions::vs), Seq::<(Seq<char>, Seq<char>)>::empty()),
        ("為よう"@, "為る"@, 0u32, subconditions_added(Conditions::vs), Seq::<(Seq<char>, Seq<char>)>::empty()),
        ("こよう"@, "くる"@, 0u32, subconditions_added(Conditions::vk), Seq::<(Seq<char>, Seq<char>)>::empty()),
        ("来よう"@, "来る"@, 0u32, subconditions_added(Conditions::vk), Seq::<(Seq<char>, Seq<char>)>::empty()),
        ("來よう"@, "來る"@, 0u32, subconditions_added(Conditions::vk), Seq::<(Seq<char>, Seq<char>)>::empty()),
        ("ましょう"@, "ます"@, 0u32, subconditions_added(Conditions::masu), Seq::<(Seq<char>, Seq<char>)>::empty()),
        ("かろう"@, "い"@, 0u32, subconditions_added(Conditions::adj_i), Seq::<(Seq<char>, Seq<char>)>::empty()),
    ]
}

#[verifier::rlimit(60)]
proof fn lemma_rules_34_ok()
    ensures
        forall|i: int| 0 <= i < rules_34().len() ==> #[trigger] rule_view_ok(rules_34()[i]),
        forall|i: int| 0 <= i < rules_34().len() ==> #[trigger] keeps_godan_rows(rules_34()[i]),
{
    reveal(rules_34);
    reveal_strlit("よう");
    lemma_utf8_size_bound("よう"@);
    reveal_strlit("る");
    lemma_utf8_size_bound("る"@);
    reveal_strlit("おう");
    lemma_utf8_size_bound("おう"@);
    reveal_strlit("う");
    lemma_utf8_size_bound("う"@);
    reveal_strlit("こう");
    lemma_utf8_size_bound("こう"@);
    reveal_strlit("く");
    lemma_utf8_size_bound("く"@);
    reveal_strlit("ごう");
    lemma_utf8_size_bound("ごう"@);
    reveal_strlit("ぐ");
    lemma_utf8_size_bound("ぐ"@);
    reveal_strlit("そう");
    lemma_utf8_size_bound("そう"@);
    reveal_strlit("す");
    lemma_utf8_size_bound("す"@);
    reveal_strlit("とう");
    lemma_utf8_size_bound("とう"@);
    reveal_strlit("つ");
    lemma_utf8_size_bound("つ"@);
    reveal_strlit("のう");
    lemma_utf8_size_bound("のう"@);
    reveal_strlit("ぬ");
    lemma_utf8_size_bound("ぬ"@);
    reveal_strlit("ぼう");
    lemma_utf8_size_bound("ぼう"@);
    reveal_strlit("ぶ");
    lemma_utf8_size_bound("ぶ"@);
    reveal_strlit("もう");
    lemma_utf8_size_bound("もう"@);
    reveal_strlit("む");
    lemma_utf8_size_bound("む"@);
    reveal_strlit("ろう");
    lemma_utf8_size_bound("ろう"@);
    reveal_strlit("じよう");
    lemma_utf8_size_bound("じよう"@);
    reveal_strlit("ずる");
    lemma_utf8_size_bound("ずる"@);
    reveal_strlit("しよう");
    lemma_utf8_size_bound("しよう"@);
    reveal_strlit("する");
    lemma_utf8_size_bound("する"@);
    reveal_strlit("為よう");
    lemma_utf8_size_bound("為よう"@);
    reveal_strlit("為る");
    lemma_utf8_size_bound("為る"@);
    reveal_strlit("こよう");
    lemma_utf8_size_bound("こよう"@);
    reveal_strlit("くる");
    lemma_utf8_size_bound("くる"@);
    reveal_strlit("来よう");
    lemma_utf8_size_bound("来よう"@);
    reveal_strlit("来る");
    lemma_utf8_size_bound("来る"@);
    reveal_strlit("來よう");
    lemma_utf8_size_bound("來よう"@);
    reveal_strlit("來る");
    lemma_utf8_size_bound("來る"@);
    reveal_strlit("ましょう");
    lemma_utf8_size_bound("ましょう"@);
    reveal_strlit("ます");
    lemma_utf8_size_bound("ます"@);
    reveal_strlit("かろう");
    lemma_utf8_size_bound("かろう"@);
    reveal_strlit("い");
    lemma_utf8_size_bound("い"@);
}

fn transform_34() -> (r: Transform)
    ensures
        rules_view(r.rules@) == rules_34(),
{
    let mut rules: Vec<Inflection> = Vec::new();
    rules.push(suffix_inflection("よう", "る", 0, Conditions(Conditions::v1).with_subconditions()));
    rules.push(suffix_inflection("おう", "う", 0, Conditions(Conditions::v5).with_subconditions()));
    rules.push(suffix_inflection("こう", "く", 0, Conditions(Conditions::v5).with_subconditions()));
    rules.push(suffix_inflection("ごう", "ぐ", 0, Conditions(Conditions::v5).with_subconditions()));
    rules.push(suffix_inflection("そう", "す", 0, Conditions(Conditions::v5).with_subconditions()));
    rules.push(suffix_inflection("とう", "つ", 0, Conditions(Conditions::v5).with_subconditions()));
    rules.push(suffix_inflection("のう", "ぬ", 0, Conditions(Conditions::v5).with_subconditions()));
    rules.push(suffix_inflection("ぼう", "ぶ", 0, Conditions(Conditions::v5).with_subconditions()));
    rules.push(suffix_inflection("もう", "む", 0, Conditions(Conditions::v5).with_subconditions()));
    rules.push(suffix_inflection("ろう", "る", 0, Conditions(Conditions::v5).with_subconditions()));
    rules.push(suffix_inflection("じよう", "ずる", 0, Conditions(Conditions::vz).with_subconditions()));
    rules.push(suffix_inflection("しよう", "する", 0, Conditions(Conditions::vs).with_subconditions()));
    rules.push(suffix_inflection("為よう", "為る", 0, Conditions(Conditions::vs).with_subconditions()));
    rules.push(suffix_inflection("こよう", "くる", 0, Conditions(Conditions::vk).with_subconditions()));
    rules.push(suffix_inflection("来よう", "来る", 0, Conditions(Conditions::vk).with_subconditions()));
    rules.push(suffix_inflection("來よう", "來る", 0, Conditions(Conditions::vk).with_subconditions()));
    rules.push(suffix_inflection("ましょう", "ます", 0, Conditions(Conditions::masu).with_subconditions()));
    rules.push(suffix_inflection("かろう", "い", 0, Conditions(Conditions::adj_i).with_subconditions()));
    proof {
        reveal(rules_34);
        assert(rules_view(rules@) =~~= rules_34());
    }
    Transform { name: "volitional", description: "1. Expresses speaker's will or intention.\n2. Expresses an invitation to the other party.\n3. (Used in …ようとする) Indicates being on the verge of initiating an action or transforming a state.\n4. Indicates an inference of a matter.\n\nUsage: Attach よう to the irrealis form (未然形) of ichidan verbs.\n       Attach う to the irrealis form (未然形) of godan verbs after -o euphonic change form.\n       Attach かろう to the stem of i-adjectives (4th meaning only).\n\n", rules }
}

/// The rules of `volitional slang`: ending, replacement, conditions in and out,
/// and endings rewritten first.
#[verifier::opaque]
pub open spec fn rules_35() -> Seq<RuleView> {
    seq![
        ("よっか"@, "る"@, 0u32, subconditions_added(Conditions::v1), Seq::<(Seq<char>, Seq<char>)>::empty()),
        ("おっか"@, "う"@, 0u32, subconditions_added(Conditions::v5), Seq::<(Seq<char>, Seq<char>)>::empty()),
        ("こっか"@, "く"@, 0u32, subconditions_added(Conditions::v5), Seq::<(Seq<char>, Seq<char>)>::empty()),
        ("ごっか"@, "ぐ"@, 0u32, subconditions_added(Conditions::v5), Seq::<(Seq<char>, Seq<char>)>::empty()),
        ("そっか"@, "す"@, 0u32, subconditions_added(Conditions::v5), Seq::<(Seq<char>, Seq<char>)>::empty()),
        ("とっか"@, "つ"@, 0u32, subconditions_added(Conditions::v5), Seq::<(Seq<char>, Seq<char>)>::empty()),
        ("のっか"@, "ぬ"@, 0u32, subconditions_added(Conditions::v5), Seq::<(Seq<char>, Seq<char>)>::empty()),
        ("ぼっか"@, "ぶ"@, 0u32, subconditions_added(Conditions::v5), Seq::<(Seq<char>, Seq<char>)>::empty()),
        ("もっか"@, "む"@, 0u32, subconditions_added(Conditions::v5), Seq::<(Seq<char>, Seq<char>)>::empty()),
        ("ろっか"@, "る"@, 0u32, subconditions_added(Conditions::v5), Seq::<(Seq<char>, Seq<char>)>::empty()),
        ("じよっか"@, "ずる"@, 0u32, subconditions_added(Conditions::vz), Seq::<(Seq<char>, Seq<char>)>::empty()),
        ("しよっか"@, "する"@, 0u32, subconditions_added(Conditions::vs), Seq::<(Seq<char>, Seq<char>)>::empty()),
        ("為よっか"@, "為る"@, 0u32, subconditions_added(Conditions::vs), Seq::<(Seq<char>, Seq<char>)>::empty()),
        ("こよっか"@, "くる"@, 0u32, subconditions_added(Conditions::vk), Seq::<(Seq<char>, Seq<char>)>::empty()),
        ("来よっか"@, "来る"@, 0u32, subconditions_added(Conditions::vk), Seq::<(Seq<char>, Seq<char>)>::empty()),
        ("來よっか"@, "來る"@, 0u32, subconditions_added(Conditions::vk), Seq::<(Seq<char>, Seq<char>)>::empty()),
        ("ましょっか"@, "ます"@, 0u32, subconditions_added(Conditions::masu), Seq::<(Seq<char>, Seq<char>)>::empty()),
    ]
}

#[verifier::rlimit(60)]
proof fn lemma_rules_35_ok()
    ensures
        forall|i: int| 0 <= i < rules_35().len() ==> #[trigger] rule_view_ok(rules_35()[i]),
        forall|i: int| 0 <= i < rules_35().len() ==> #[trigger] keeps_godan_rows(rules_35()[i]),
{
    reveal(rules_35);
    reveal_strlit("よっか");
    lemma_utf8_size_bound("よっか"@);
    reveal_strlit("る");
    lemma_utf8_size_bound("る"@);
    reveal_strlit("おっか");
    lemma_utf8_size_bound("おっか"@);
    reveal_strlit("う");
    lemma_utf8_size_bound("う"@);
    reveal_strlit("こっか");
    lemma_utf8_size_bound("こっか"@);
    reveal_strlit("く");
    lemma_utf8_size_bound("く"@);
    reveal_strlit("ごっか");
    lemma_utf8_size_bound("ごっか"@);
    reveal_strlit("ぐ");
    lemma_utf8_size_bound("ぐ"@);
    reveal_strlit("そっか");
    lemma_utf8_size_bound("そっか"@);
    reveal_strlit("す");
    lemma_utf8_size_bound("す"@);
    reveal_strlit("とっか");
    lemma_utf8_size_bound("とっか"@);
    reveal_strlit("つ");
    lemma_utf8_size_bound("つ"@);
    reveal_strlit("のっか");
    lemma_utf8_size_bound("のっか"@);
    reveal_strlit("ぬ");
    lemma_utf8_size_bound("ぬ"@);
    reveal_strlit("ぼっか");
    lemma_utf8_size_bound("ぼっか"@);
    reveal_strlit("ぶ");
    lemma_utf8_size_bound("ぶ"@);
    reveal_strlit("もっか");
    lemma_utf8_size_bound("もっか"@);
    reveal_strlit("む");
    lemma_utf8_size_bound("む"@);
    reveal_strlit("ろっか");
    lemma_utf8_size_bound("ろっか"@);
    reveal_strlit("じよっか");
    lemma_utf8_size_bound("じよっか"@);
    reveal_strlit("ずる");
    lemma_utf8_size_bound("ずる"@);
    reveal_strlit("しよっか");
    lemma_utf8_size_bound("しよっか"@);
    reveal_strlit("する");
    lemma_utf8_size_bound("する"@);
    reveal_strlit("為よっか");
    lemma_utf8_size_bound("為よっか"@);
    reveal_strlit("為る");
    lemma_utf8_size_bound("為る"@);
    reveal_strlit("こよっか");
    lemma_utf8_size_bound("こよっか"@);
    reveal_strlit("くる");
    lemma_utf8_size_bound("くる"@);
    reveal_strlit("来よっか");
    lemma_utf8_size_bound("来よっか"@);
    reveal_strlit("来る");
    lemma_utf8_size_bound("来る"@);
    reveal_strlit("來よっか");
    lemma_utf8_size_bound("來よっか"@);
    reveal_strlit("來る");
    lemma_utf8_size_bound("來る"@);
    reveal_strlit("ましょっか");
    lemma_utf8_size_bound("ましょっか"@);
    reveal_strlit("ます");
    lemma_utf8_size_bound("ます"@);
}

fn transform_35() -> (r: Transform)
    ensures
        rules_view(r.rules@) == rules_35(),
{
    let mut rules: Vec<Inflection> = Vec::new();
    rules.push(suffix_inflection("よっか", "る", 0, Conditions(Conditions::v1).with_subconditions()));
    rules.push(suffix_inflection("おっか", "う", 0, Conditions(Conditions::v5).with_subconditions()));
    rules.push(suffix_inflection("こっか", "く", 0, Conditions(Conditions::v5).with_subconditions()));
    rules.push(suffix_inflection("ごっか", "ぐ", 0, Conditions(Conditions::v5).with_subconditions()));
    rules.push(suffix_inflection("そっか", "す", 0, Conditions(Conditions::v5).with_subconditions()));
    rules.push(suffix_inflection("とっか", "つ", 0, Conditions(Conditions::v5).with_subconditions()));
    rules.push(suffix_inflection("のっか", "ぬ", 0, Conditions(Conditions::v5).with_subconditions()));
    rules.push(suffix_inflection("ぼっか", "ぶ", 0, Conditions(Conditions::v5).with_subconditions()));
    rules.push(suffix_inflection("もっか", "む", 0, Conditions(Conditions::v5).with_subconditions()));
    rules.push(suffix_inflection("ろっか", "る", 0, Conditions(Conditions::v5).with_subconditions()));
    rules.push(suffix_inflection("じよっか", "ずる", 0, Conditions(Conditions::vz).with_subconditions()));
    rules.push(suffix_inflection("しよっか", "する", 0, Conditions(Conditions::vs).with_subconditions()));
    rules.push(suffix_inflection("為よっか", "為る", 0, Conditions(Conditions::vs).with_subconditions()));
    rules.push(suffix_inflection("こよっか", "くる", 0, Conditions(Conditions::vk).with_subconditions()));
    rules.push(suffix_inflection("来よっか", "来る", 0, Conditions(Conditions::vk).with_subconditions()));
    rules.push(suffix_inflection("來よっか", "來る", 0, Conditions(Conditions::vk).with_subconditions()));
    rules.push(suffix_inflection("ましょっか", "ます", 0, Conditions(Conditions::masu).with_subconditions()));
    proof {
        reveal(rules_35);
        assert(rules_view(rules@) =~~= rules_35());
    }
    Transform { name: "volitional slang", description: "Contraction of volitional form + か\n\n1. Expresses speaker's will or intention.\n2. Expresses an invitation to the other party.\n\nUsage: Replace final う with っ of volitional form then add か.\n\nFor example: 行こうか -> 行こっか.\n", rules }
}

/// The rules of `-まい`: ending, replacement, conditions in and out,
/// and endings rewritten first.
#[verifier::opaque]
pub open spec fn rules_36() -> Seq<RuleView> {
    seq![
        ("まい"@, ""@, 0u32, subconditions_added(Conditions::v), Seq::<(Seq<char>, Seq<char>)>::empty()),
        ("まい"@, "る"@, 0u32, subconditions_added(Conditions::v1), Seq::<(Seq<char>, Seq<char>)>::empty()),
        ("じまい"@, "ずる"@, 0u32, subconditions_added(Conditions::vz), Seq::<(Seq<char>, Seq<char>)>::empty()),
        ("しまい"@, "する"@, 0u32, subconditions_added(Conditions::vs), Seq::<(Seq<char>, Seq<char>)>::empty()),
        ("為まい"@, "為る"@, 0u32, subconditions_added(Conditions::vs), Seq::<(Seq<char>, Seq<char>)>::empty()),
        ("こまい"@, "くる"@, 0u32, subconditions_added(Conditions::vk), Seq::<(Seq<char>, Seq<char>)>::empty()),
        ("来まい"@, "来る"@, 0u32, subconditions_added(Conditions::vk), Seq::<(Seq<char>, Seq<char>)>::empty()),
        ("來まい"@, "來る"@, 0u32, subconditions_added(Conditions::vk), Seq::<(Seq<char>, Seq<char>)>::empty()),
        ("まい"@, ""@, 0u32, subconditions_added(Conditions::masu), Seq::<(Seq<char>, Seq<char>)>::empty()),
    ]
}

#[verifier::rlimit(60)]
proof fn lemma_rules_36_ok()
    ensures
        forall|i: int| 0 <= i < rules_36().len() ==> #[trigger] rule_view_ok(rules_36()[i]),
        forall|i: int| 0 <= i < rules_36().len() ==> #[trigger] keeps_godan_rows(rules_36()[i]),
{
    reveal(rules_36);
    reveal_strlit("まい");
    lemma_utf8_size_bound("まい"@);
    reveal_strlit("");
    lemma_utf8_size_bound(""@);
    reveal_strlit("る");
    lemma_utf8_size_bound("る"@);
    reveal_strlit("じまい");
    lemma_utf8_size_bound("じまい"@);
    reveal_strlit("ずる");
    lemma_utf8_size_bound("ずる"@);
    reveal_strlit("しまい");
    lemma_utf8_size_bound("しまい"@);
    reveal_strlit("する");
    lemma_utf8_size_bound("する"@);
    reveal_strlit("為まい");
    lemma_utf8_size_bound("為まい"@);
    reveal_strlit("為る");
    lemma_utf8_size_bound("為る"@);
    reveal_strlit("こまい");
    lemma_utf8_size_bound("こまい"@);
    reveal_strlit("くる");
    lemma_utf8_size_bound("くる"@);
    reveal_strlit("来まい");
    lemma_utf8_size_bound("来まい"@);
    reveal_strlit("来る");
    lemma_utf8_size_bound("来る"@);
    reveal_strlit("來まい");
    lemma_utf8_size_bound("來まい"@);
    reveal_strlit("來る");
    lemma_utf8_size_bound("來る"@);
}

fn transform_36() -> (r: Transform)
    ensures
        rules_view(r.rules@) == rules_36(),
{
    let mut rules: Vec<Inflection> = Vec::new();
    rules.push(suffix_inflection("まい", "", 0, Conditions(Conditions::v).with_subconditions()));
    rules.push(suffix_inflection("まい", "る", 0, Conditions(Conditions::v1).with_subconditions()));
    rules.push(suffix_inflection("じまい", "ずる", 0, Conditions(Conditions::vz).with_subconditions()));
    rules.push(suffix_inflection("しまい", "する", 0, Conditions(Conditions::vs).with_subconditions()));
    rules.push(suffix_inflection("為まい", "為る", 0, Conditions(Conditions::vs).with_subconditions()));
    rules.push(suffix_inflection("こまい", "くる", 0, Conditions(Conditions::vk).with_subconditions()));
    rules.push(suffix_inflection("来まい", "来る", 0, Conditions(Conditions::vk).with_subconditions()));
    rules.push(suffix_inflection("來まい", "來る", 0, Conditions(Conditions::vk).with_subconditions()));
    rules.push(suffix_inflection("まい", "", 0, Conditions(Conditions::masu).with_subconditions()));
    proof {
        reveal(rules_36);
        assert(rules_view(rules@) =~~= rules_36());
    }
    Transform { name: "-まい", description: "Negative volitional form of verbs.\n1. Expresses speaker's assumption that something is likely not true.\n2. Expresses speaker's will or intention not to do something.\n\nUsage: Attach まい to the dictionary form (終止形) of verbs.\n       Attach まい to the irrealis form (未然形) of ichidan verbs.\n\nIrregularities: する becomes しまい, くる becomes こまい\n", rules }
}

/// The rules of `-おく`: ending, replacement, conditions in and out,
/// and endings rewritten first.
#[verifier::opaque]
pub open spec fn rules_37() -> Seq<RuleView> {
    seq![
        ("ておく"@, "て"@, subconditions_added(Conditions::v5), subconditions_added(Conditions::te), Seq::<(Seq<char>, Seq<char>)>::empty()),
        ("でおく"@, "で"@, subconditions_added(Conditions::v5), subconditions_added(Conditions::te), Seq::<(Seq<char>, Seq<char>)>::empty()),
        ("とく"@, "て"@, subconditions_added(Conditions::v5), subconditions_added(Conditions::te), Seq::<(Seq<char>, Seq<char>)>::empty()),
        ("どく"@, "で"@, subconditions_added(Conditions::v5), subconditions_added(Conditions::te), Seq::<(Seq<char>, Seq<char>)>::empty()),
        ("ないでおく"@, "ない"@, subconditions_added(Conditions::v5), subconditions_added(Conditions::adj_i), Seq::<(Seq<char>, Seq<char>)>::empty()),
        ("ないどく"@, "ない"@, subconditions_added(Conditions::v5), subconditions_added(Conditions::adj_i), Seq::<(Seq<char>, Seq<char>)>::empty()),
    ]
}

#[verifier::rlimit(60)]
proof fn lemma_rules_37_ok()
    ensures
        forall|i: int| 0 <= i < rules_37().len() ==> #[trigger] rule_view_ok(rules_37()[i]),
        forall|i: int| 0 <= i < rules_37().len() ==> #[trigger] keeps_godan_rows(rules_37()[i]),
{
    reveal(rules_37);
    reveal_strlit("ておく");
    lemma_utf8_size_bound("ておく"@);
    reveal_strlit("て");
    lemma_utf8_size_bound("て"@);
    reveal_strlit("でおく");
    lemma_utf8_size_bound("でおく"@);
    reveal_strlit("で");
    lemma_utf8_size_bound("で"@);
    reveal_strlit("とく");
    lemma_utf8_size_bound("とく"@);
    reveal_strlit("どく");
    lemma_utf8_size_bound("どく"@);
    reveal_strlit("ないでおく");
    lemma_utf8_size_bound("ないでおく"@);
    reveal_strlit("ない");
    lemma_utf8_size_bound("ない"@);
    reveal_strlit("ないどく");
    lemma_utf8_size_bound("ないどく"@);
}

fn transform_37() -> (r: Transform)
    ensures
        rules_view(r.rules@) == rules_37(),
{
    let mut rules: Vec<Inflection> = Vec::new();
    rules.push(suffix_inflection("ておく", "て", Conditions(Conditions::v5).with_subconditions(), Conditions(Conditions::te).with_subconditions()));
    rules.push(suffix_inflection("でおく", "で", Conditions(Conditions::v5).with_subconditions(), Conditions(Conditions::te).with_subconditions()));
    rules.push(suffix_inflection("とく", "て", Conditions(Conditions::v5).with_subconditions(), Conditions(Conditions::te).with_subconditions()));
    rules.push(suffix_inflection("どく", "で", Conditions(Conditions::v5).with_subconditions(), Conditions(Conditions::te).with_subconditions()));
    rules.push(suffix_inflection("ないでおく", "ない", Conditions(Conditions::v5).with_subconditions(), Conditions(Conditions::adj_i).with_subconditions()));
    rules.push(suffix_inflection("ないどく", "ない", Conditions(Conditions::v5).with_subconditions(), Conditions(Conditions::adj_i).with_subconditions()));
    proof {
        reveal(rules_37);
        assert(rules_view(rules@) =~~= rules_37());
    }
    Transform { name: "-おく", description: "To do certain things in advance in preparation (or in anticipation) of latter needs.\n\nUsage: Attach おく to the て-form of verbs.\n       Attach でおく after ない negative form of verbs.\n\nContracts to とく・どく in speech.\n", rules }
}

/// The rules of `-いる`: ending, replacement, conditions in and out,
/// and endings rewritten first.
#[verifier::opaque]
pub open spec fn rules_38() -> Seq<RuleView> {
    seq![
        ("ている"@, "て"@, subconditions_added(Conditions::v1), subconditions_added(Conditions::te), Seq::<(Seq<char>, Seq<char>)>::empty()),
        ("ておる"@, "て"@, subconditions_added(Conditions::v5), subconditions_added(Conditions::te), Seq::<(Seq<char>, Seq<char>)>::empty()),
        ("てる"@, "て"@, subconditions_added(Conditions::v1p), subconditions_added(Conditions::te), Seq::<(Seq<char>, Seq<char>)>::empty()),
        ("でいる"@, "で"@, subconditions_added(Conditions::v1), subconditions_added(Conditions::te), Seq::<(Seq<char>, Seq<char>)>::empty()),
        ("でおる"@, "で"@, subconditions_added(Conditions::v5), subconditions_added(Conditions::te), Seq::<(Seq<char>, Seq<char>)>::empty()),
        ("でる"@, "で"@, subconditions_added(Conditions::v1p), subconditions_added(Conditions::te), Seq::<(Seq<char>, Seq<char>)>::empty()),
        ("とる"@, "て"@, subconditions_added(Conditions::v5), subconditions_added(Conditions::te), Seq::<(Seq<char>, Seq<char>)>::empty()),
        ("ないでいる"@, "ない"@, subconditions_added(Conditions::v1), subconditions_added(Conditions::adj_i), Seq::<(Seq<char>, Seq<char>)>::empty()),
    ]
}

#[verifier::rlimit(60)]
proof fn lemma_rules_38_ok()
    ensures
        forall|i: int| 0 <= i < rules_38().len() ==> #[trigger] rule_view_ok(rules_38()[i]),
        forall|i: int| 0 <= i < rules_38().len() ==> #[trigger] keeps_godan_rows(rules_38()[i]),
{
    reveal(rules_38);
    reveal_strlit("ている");
    lemma_utf8_size_bound("ている"@);
    reveal_strlit("て");
    lemma_utf8_size_bound("て"@);
    reveal_strlit("ておる");
    lemma_utf8_size_bound("ておる"@);
    reveal_strlit("てる");
    lemma_utf8_size_bound("てる"@);
    reveal_strlit("でいる");
    lemma_utf8_size_bound("でいる"@);
    reveal_strlit("で");
    lemma_utf8_size_bound("で"@);
    reveal_strlit("でおる");
    lemma_utf8_size_bound("でおる"@);
    reveal_strlit("でる");
    lemma_utf8_size_bound("でる"@);
    reveal_strlit("とる");
    lemma_utf8_size_bound("とる"@);
    reveal_strlit("ないでいる");
    lemma_utf8_size_bound("ないでいる"@);
    reveal_strlit("ない");
    lemma_utf8_size_bound("ない"@);
}

fn transform_38() -> (r: Transform)
    ensures
        rules_view(r.rules@) == rules_38(),
{
    let mut rules: Vec<Inflection> = Vec::new();
    rules.push(suffix_inflection("ている", "て", Conditions(Conditions::v1).with_subconditions(), Conditions(Conditions::te).with_subconditions()));
    rules.push(suffix_inflection("ておる", "て", Conditions(Conditions::v5).with_subconditions(), Conditions(Conditions::te).with_subconditions()));
    rules.push(suffix_inflection("てる", "て", Conditions(Conditions::v1p).with_subconditions(), Conditions(Conditions::te).with_subconditions()));
    rules.push(suffix_inflection("でいる", "で", Conditions(Conditions::v1).with_subconditions(), Conditions(Conditions::te).with_subconditions()));
    rules.push(suffix_inflection("でおる", "で", Conditions(Conditions::v5).with_subconditions(), Conditions(Conditions::te).with_subconditions()));
    rules.push(suffix_inflection("でる", "で", Conditions(Conditions::v1p).with_subconditions(), Conditions(Conditions::te).with_subconditions()));
    rules.push(suffix_inflection("とる", "て", Conditions(Conditions::v5).with_subconditions(), Conditions(Conditions::te).with_subconditions()));
    rules.push(suffix_inflection("ないでいる", "ない", Conditions(Conditions::v1).with_subconditions(), Conditions(Conditions::adj_i).with_subconditions()));
    proof {
        reveal(rules_38);
        assert(rules_view(rules@) =~~= rules_38());
    }
    Transform { name: "-いる", description: "1. Indicates an action continues or progresses to a point in time.\n2. Indicates an action is completed and remains as is.\n3. Indicates a state or condition that can be taken to be the result of undergoing some change.\n\nUsage: Attach いる to the て-form of verbs. い can be dropped in speech.\n       Attach でいる after ない negative form of verbs.\n       (Slang) Attach おる to the て-form of verbs. Contracts to とる・でる in speech.\n", rules }
}

/// The rules of `-き`: ending, replacement, conditions in and out,
/// and endings rewritten first.
#[verifier::opaque]
pub open spec fn rules_39() -> Seq<RuleView> {
    seq![
        ("き"@, "い"@, 0u32, subconditions_added(Conditions::adj_i), Seq::<(Seq<char>, Seq<char>)>::empty()),
    ]
}

#[verifier::rlimit(60)]
proof fn lemma_rules_39_ok()
    ensures
        forall|i: int| 0 <= i < rules_39().len() ==> #[trigger] rule_view_ok(rules_39()[i]),
        forall|i: int| 0 <= i < rules_39().len() ==> #[trigger] keeps_godan_rows(rules_39()[i]),
{
    reveal(rules_39);
    reveal_strlit("き");
    lemma_utf8_size_bound("き"@);
    reveal_strlit("い");
    lemma_utf8_size_bound("い"@);
}

fn transform_39() -> (r: Transform)
    ensures
        rules_view(r.rules@) == rules_39(),
{
    let mut rules: Vec<Inflection> = Vec::new();
    rules.push(suffix_inflection("き", "い", 0, Conditions(Conditions::adj_i).with_subconditions()));
    proof {
        reveal(rules_39);
        assert(rules_view(rules@) =~~= rules_39());
    }
    Transform { name: "-き", description: "Attributive form (連体形) of i-adjectives. An archaic form that remains in modern Japanese.\n", rules }
}

/// The rules of `-げ`: ending, replacement, conditions in and out,
/// and endings rewritten first.
#[verifier::opaque]
pub open spec fn rules_40() -> Seq<RuleView> {
    seq![
        ("げ"@, "い"@, 0u32, subconditions_added(Conditions::adj_i), Seq::<(Seq<char>, Seq<char>)>::empty()),
        ("気"@, "い"@, 0u32, subconditions_added(Conditions::adj_i), Seq::<(Seq<char>, Seq<char>)>::empty()),
    ]
}

#[verifier::rlimit(60)]
proof fn lemma_rules_40_ok()
    ensures
        forall|i: int| 0 <= i < rules_40().len() ==> #[trigger] rule_view_ok(rules_40()[i]),
        forall|i: int| 0 <= i < rules_40().len() ==> #[trigger] keeps_godan_rows(rules_40()[i]),
{
    reveal(rules_40);
    reveal_strlit("げ");
    lemma_utf8_size_bound("げ"@);
    reveal_strlit("い");
    lemma_utf8_size_bound("い"@);
    reveal_strlit("気");
    lemma_utf8_size_bound("気"@);
}

fn transform_40() -> (r: Transform)
    ensures
        rules_view(r.rules@) == rules_40(),
{
    let mut rules: Vec<Inflection> = Vec::new();
    rules.push(suffix_inflection("げ", "い", 0, Conditions(Conditions::adj_i).with_subconditions()));
    rules.push(suffix_inflection("気", "い", 0, Conditions(Conditions::adj_i).with_subconditions()));
    proof {
        reveal(rules_40);
        assert(rules_view(rules@) =~~= rules_40());
    }
    Transform { name: "-げ", description: "Describes a person's appearance. Shows feelings of the person.\n\nUsage: Attach げ or 気 to the stem of i-adjectives\n", rules }
}

/// The rules of `-がる`: ending, replacement, conditions in and out,
/// and endings rewritten first.
#[verifier::opaque]
pub open spec fn rules_41() -> Seq<RuleView> {
    seq![
        ("がる"@, "い"@, subconditions_added(Conditions::v5), subconditions_added(Conditions::adj_i), Seq::<(Seq<char>, Seq<char>)>::empty()),
    ]
}

#[verifier::rlimit(60)]
proof fn lemma_rules_41_ok()
    ensures
        forall|i: int| 0 <= i < rules_41().len() ==> #[trigger] rule_view_ok(rules_41()[i]),
        forall|i: int| 0 <= i < rules_41().len() ==> #[trigger] keeps_godan_rows(rules_41()[i]),
{
    reveal(rules_41);
    reveal_strlit("がる");
    lemma_utf8_size_bound("がる"@);
    reveal_strlit("い");
    lemma_utf8_size_bound("い"@);
}

fn transform_41() -> (r: Transform)
    ensures
        rules_view(r.rules@) == rules_41(),
{
    let mut rules: Vec<Inflection> = Vec::new();
    rules.push(suffix_inflection("がる", "い", Conditions(Conditions::v5).with_subconditions(), Conditions(Conditions::adj_i).with_subconditions()));
    proof {
        reveal(rules_41);
        assert(rules_view(rules@) =~~= rules_41());
    }
    Transform { name: "-がる", description: "1. Shows subject’s feelings contrast with what is thought/known about them.\n2. Indicates subject's behavior (stands out).\n\nUsage: Attach がる to the stem of i-adjectives. It itself conjugates as a godan verb.\n", rules }
}

/// The rules of `-え`: ending, replacement, conditions in and out,
/// and endings rewritten first.
#[verifier::opaque]
pub open spec fn rules_42() -> Seq<RuleView> {
    seq![
        ("ねえ"@, "ない"@, 0u32, subconditions_added(Conditions::adj_i), Seq::<(Seq<char>, Seq<char>)>::empty()),
        ("めえ"@, "むい"@, 0u32, subconditions_added(Conditions::adj_i), Seq::<(Seq<char>, Seq<char>)>::empty()),
        ("みい"@, "むい"@, 0u32, subconditions_added(Conditions::adj_i), Seq::<(Seq<char>, Seq<char>)>::empty()),
        ("ちぇえ"@, "つい"@, 0u32, subconditions_added(Conditions::adj_i), Seq::<(Seq<char>, Seq<char>)>::empty()),
        ("ちい"@, "つい"@, 0u32, subconditions_added(Conditions::adj_i), Seq::<(Seq<char>, Seq<char>)>::empty()),
        ("せえ"@, "すい"@, 0u32, subconditions_added(Conditions::adj_i), Seq::<(Seq<char>, Seq<char>)>::empty()),
        ("ええ"@, "いい"@, 0u32, subconditions_added(Conditions::adj_i), Seq::<(Seq<char>, Seq<char>)>::empty()),
        ("ええ"@, "わい"@, 0u32, subconditions_added(Conditions::adj_i), Seq::<(Seq<char>, Seq<char>)>::empty()),
        ("ええ"@, "よい"@, 0u32, subconditions_added(Conditions::adj_i), Seq::<(Seq<char>, Seq<char>)>::empty()),
        ("いぇえ"@, "よい"@, 0u32, subconditions_added(Conditions::adj_i), Seq::<(Seq<char>, Seq<char>)>::empty()),
        ("うぇえ"@, "わい"@, 0u32, subconditions_added(Conditions::adj_i), Seq::<(Seq<char>, Seq<char>)>::empty()),
        ("けえ"@, "かい"@, 0u32, subconditions_added(Conditions::adj_i), Seq::<(Seq<char>, Seq<char>)>::empty()),
        ("げえ"@, "がい"@, 0u32, subconditions_added(Conditions::adj_i), Seq::<(Seq<char>, Seq<char>)>::empty()),
        ("げえ"@, "ごい"@, 0u32, subconditions_added(Conditions::adj_i), Seq::<(Seq<char>, Seq<char>)>::empty()),
        ("せえ"@, "さい"@, 0u32, subconditions_added(Conditions::adj_i), Seq::<(Seq<char>, Seq<char>)>::empty()),
        ("めえ"@, "まい"@, 0u32, subconditions_added(Conditions::adj_i), Seq::<(Seq<char>, Seq<char>)>::empty()),
        ("ぜえ"@, "ずい"@, 0u32, subconditions_added(Conditions::adj_i), Seq::<(Seq<char>, Seq<char>)>::empty()),
        ("っぜえ"@, "ずい"@, 0u32, subconditions_added(Conditions::adj_i), Seq::<(Seq<char>, Seq<char>)>::empty()),
        ("れえ"@, "らい"@, 0u32, subconditions_added(Conditions::adj_i), Seq::<(Seq<char>, Seq<char>)>::empty()),
        ("れえ"@, "らい"@, 0u32, subconditions_added(Conditions::adj_i), Seq::<(Seq<char>, Seq<char>)>::empty()),
        ("ちぇえ"@, "ちゃい"@, 0u32, subconditions_added(Conditions::adj_i), Seq::<(Seq<char>, Seq<char>)>::empty()),
        ("でえ"@, "どい"@, 0u32, subconditions_added(Conditions::adj_i), Seq::<(Seq<char>, Seq<char>)>::empty()),
        ("れえ"@, "れい"@, 0u32, subconditions_added(Conditions::adj_i), Seq::<(Seq<char>, Seq<char>)>::empty()),
        ("べえ"@, "ばい"@, 0u32, subconditions_added(Conditions::adj_i), Seq::<(Seq<char>, Seq<char>)>::empty()),
        ("てえ"@, "たい"@, 0u32, subconditions_added(Conditions::adj_i), Seq::<(Seq<char>, Seq<char>)>::empty()),
        ("ねぇ"@, "ない"@, 0u32, subconditions_added(Conditions::adj_i), Seq::<(Seq<char>, Seq<char>)>::empty()),
        ("めぇ"@, "むい"@, 0u32, subconditions_added(Conditions::adj_i), Seq::<(Seq<char>, Seq<char>)>::empty()),
        ("みぃ"@, "むい"@, 0u32, subconditions_added(Conditions::adj_i), Seq::<(Seq<char>, Seq<char>)>::empty()),
        ("ちぃ"@, "つい"@, 0u32, subconditions_added(Conditions::adj_i), Seq::<(Seq<char>, Seq<char>)>::empty()),
        ("せぇ"@, "すい"@, 0u32, subconditions_added(Conditions::adj_i), Seq::<(Seq<char>, Seq<char>)>::empty()),
        ("けぇ"@, "かい"@, 0u32, subconditions_added(Conditions::adj_i), Seq::<(Seq<char>, Seq<char>)>::empty()),
        ("げぇ"@, "がい"@, 0u32, subconditions_added(Conditions::adj_i), Seq::<(Seq<char>, Seq<char>)>::empty()),
        ("げぇ"@, "ごい"@, 0u32, subconditions_added(Conditions::adj_i), Seq::<(Seq<char>, Seq<char>)>::empty()),
        ("せぇ"@, "さい"@, 0u32, subconditions_added(Conditions::adj_i), Seq::<(Seq<char>, Seq<char>)>::empty()),
        ("めぇ"@, "まい"@, 0u32, subconditions_added(Conditions::adj_i), Seq::<(Seq<char>, Seq<char>)>::empty()),
        ("ぜぇ"@, "ずい"@, 0u32, subconditions_added(Conditions::adj_i), Seq::<(Seq<char>, Seq<char>)>::empty()),
        ("っぜぇ"@, "ずい"@, 0u32, subconditions_added(Conditions::adj_i), Seq::<(Seq<char>, Seq<char>)>::empty()),
        ("れぇ"@, "らい"@, 0u32, subconditions_added(Conditions::adj_i), Seq::<(Seq<char>, Seq<char>)>::empty()),
        ("でぇ"@, "どい"@, 0u32, subconditions_added(Conditions::adj_i), Seq::<(Seq<char>, Seq<char>)>::empty()),
        ("れぇ"@, "れい"@, 0u32, subconditions_added(Conditions::adj_i), Seq::<(Seq<char>, Seq<char>)>::empty()),
        ("べぇ"@, "ばい"@, 0u32, subconditions_added(Conditions::adj_i), Seq::<(Seq<char>, Seq<char>)>::empty()),
        ("てぇ"@, "たい"@, 0u32, subconditions_added(Conditions::adj_i), Seq::<(Seq<char>, Seq<char>)>::empty()),
    ]
}

#[verifier::rlimit(60)]
proof fn lemma_rules_42_ok()
    ensures
        forall|i: int| 0 <= i < rules_42().len() ==> #[trigger] rule_view_ok(rules_42()[i]),
        forall|i: int| 0 <= i < rules_42().len() ==> #[trigger] keeps_godan_rows(rules_42()[i]),
{
    reveal(rules_42);
    reveal_strlit("ねえ");
    lemma_utf8_size_bound("ねえ"@);
    reveal_strlit("ない");
    lemma_utf8_size_bound("ない"@);
    reveal_strlit("めえ");
    lemma_utf8_size_bound("めえ"@);
    reveal_strlit("むい");
    lemma_utf8_size_bound("むい"@);
    reveal_strlit("みい");
    lemma_utf8_size_bound("みい"@);
    reveal_strlit("ちぇえ");
    lemma_utf8_size_bound("ちぇえ"@);
    reveal_strlit("つい");
    lemma_utf8_size_bound("つい"@);
    reveal_strlit("ちい");
    lemma_utf8_size_bound("ちい"@);
    reveal_strlit("せえ");
    lemma_utf8_size_bound("せえ"@);
    reveal_strlit("すい");
    lemma_utf8_size_bound("すい"@);
    reveal_strlit("ええ");
    lemma_utf8_size_bound("ええ"@);
    reveal_strlit("いい");
    lemma_utf8_size_bound("いい"@);
    reveal_strlit("わい");
    lemma_utf8_size_bound("わい"@);
    reveal_strlit("よい");
    lemma_utf8_size_bound("よい"@);
    reveal_strlit("いぇえ");
    lemma_utf8_size_bound("いぇえ"@);
    reveal_strlit("うぇえ");
    lemma_utf8_size_bound("うぇえ"@);
    reveal_strlit("けえ");
    lemma_utf8_size_bound("けえ"@);
    reveal_strlit("かい");
    lemma_utf8_size_bound("かい"@);
    reveal_strlit("げえ");
    lemma_utf8_size_bound("げえ"@);
    reveal_strlit("がい");
    lemma_utf8_size_bound("がい"@);
    reveal_strlit("ごい");
    lemma_utf8_size_bound("ごい"@);
    reveal_strlit("さい");
    lemma_utf8_size_bound("さい"@);
    reveal_strlit("まい");
    lemma_utf8_size_bound("まい"@);
    reveal_strlit("ぜえ");
    lemma_utf8_size_bound("ぜえ"@);
    reveal_strlit("ずい");
    lemma_utf8_size_bound("ずい"@);
    reveal_strlit("っぜえ");
    lemma_utf8_size_bound("っぜえ"@);
    reveal_strlit("れえ");
    lemma_utf8_size_bound("れえ"@);
    reveal_strlit("らい");
    lemma_utf8_size_bound("らい"@);
    reveal_strlit("ちゃい");
    lemma_utf8_size_bound("ちゃい"@);
    reveal_strlit("でえ");
    lemma_utf8_size_bound("でえ"@);
    reveal_strlit("どい");
    lemma_utf8_size_bound("どい"@);
    reveal_strlit("れい");
    lemma_utf8_size_bound("れい"@);
    reveal_strlit("べえ");
    lemma_utf8_size_bound("べえ"@);
    reveal_strlit("ばい");
    lemma_utf8_size_bound("ばい"@);
    reveal_strlit("てえ");
    lemma_utf8_size_bound("てえ"@);
    reveal_strlit("たい");
    lemma_utf8_size_bound("たい"@);
    reveal_strlit("ねぇ");
    lemma_utf8_size_bound("ねぇ"@);
    reveal_strlit("めぇ");
    lemma_utf8_size_bound("めぇ"@);
    reveal_strlit("みぃ");
    lemma_utf8_size_bound("みぃ"@);
    reveal_strlit("ちぃ");
    lemma_utf8_size_bound("ちぃ"@);
    reveal_strlit("せぇ");
    lemma_utf8_size_bound("せぇ"@);
    reveal_strlit("けぇ");
    lemma_utf8_size_bound("けぇ"@);
    reveal_strlit("げぇ");
    lemma_utf8_size_bound("げぇ"@);
    reveal_strlit("ぜぇ");
    lemma_utf8_size_bound("ぜぇ"@);
    reveal_strlit("っぜぇ");
    lemma_utf8_size_bound("っぜぇ"@);
    reveal_strlit("れぇ");
    lemma_utf8_size_bound("れぇ"@);
    reveal_strlit("でぇ");
    lemma_utf8_size_bound("でぇ"@);
    reveal_strlit("べぇ");
    lemma_utf8_size_bound("べぇ"@);
    reveal_strlit("てぇ");
    lemma_utf8_size_bound("てぇ"@);
}

fn transform_42() -> (r: Transform)
    ensures
        rules_view(r.rules@) == rules_42(),
{
    let mut rules: Vec<Inflection> = Vec::new();
    rules.push(suffix_inflection("ねえ", "ない", 0, Conditions(Conditions::adj_i).with_subconditions()));
    rules.push(suffix_inflection("めえ", "むい", 0, Conditions(Conditions::adj_i).with_subconditions()));
    rules.push(suffix_inflection("みい", "むい", 0, Conditions(Conditions::adj_i).with_subconditions()));
    rules.push(suffix_inflection("ちぇえ", "つい", 0, Conditions(Conditions::adj_i).with_subconditions()));
    rules.push(suffix_inflection("ちい", "つい", 0, Conditions(Conditions::adj_i).with_subconditions()));
    rules.push(suffix_inflection("せえ", "すい", 0, Conditions(Conditions::adj_i).with_subconditions()));
    rules.push(suffix_inflection("ええ", "いい", 0, Conditions(Conditions::adj_i).with_subconditions()));
    rules.push(suffix_inflection("ええ", "わい", 0, Conditions(Conditions::adj_i).with_subconditions()));
    rules.push(suffix_inflection("ええ", "よい", 0, Conditions(Conditions::adj_i).with_subconditions()));
    rules.push(suffix_inflection("いぇえ", "よい", 0, Conditions(Conditions::adj_i).with_subconditions()));
    rules.push(suffix_inflection("うぇえ", "わい", 0, Conditions(Conditions::adj_i).with_subconditions()));
    rules.push(suffix_inflection("けえ", "かい", 0, Conditions(Conditions::adj_i).with_subconditions()));
    rules.push(suffix_inflection("げえ", "がい", 0, Conditions(Conditions::adj_i).with_subconditions()));
    rules.push(suffix_inflection("げえ", "ごい", 0, Conditions(Conditions::adj_i).with_subconditions()));
    rules.push(suffix_inflection("せえ", "さい", 0, Conditions(Conditions::adj_i).with_subconditions()));
    rules.push(suffix_inflection("めえ", "まい", 0, Conditions(Conditions::adj_i).with_subconditions()));
    rules.push(suffix_inflection("ぜえ", "ずい", 0, Conditions(Conditions::adj_i).with_subconditions()));
    rules.push(suffix_inflection("っぜえ", "ずい", 0, Conditions(Conditions::adj_i).with_subconditions()));
    rules.push(suffix_inflection("れえ", "らい", 0, Conditions(Conditions::adj_i).with_subconditions()));
    rules.push(suffix_inflection("れえ", "らい", 0, Conditions(Conditions::adj_i).with_subconditions()));
    rules.push(suffix_inflection("ちぇえ", "ちゃい", 0, Conditions(Conditions::adj_i).with_subconditions()));
    rules.push(suffix_inflection("でえ", "どい", 0, Conditions(Conditions::adj_i).with_subconditions()));
    rules.push(suffix_inflection("れえ", "れい", 0, Conditions(Conditions::adj_i).with_subconditions()));
    rules.push(suffix_inflection("べえ", "ばい", 0, Conditions(Conditions::adj_i).with_subconditions()));
    rules.push(suffix_inflection("てえ", "たい", 0, Conditions(Conditions::adj_i).with_subconditions()));
    rules.push(suffix_inflection("ねぇ", "ない", 0, Conditions(Conditions::adj_i).with_subconditions()));
    rules.push(suffix_inflection("めぇ", "むい", 0, Conditions(Conditions::adj_i).with_subconditions()));
    rules.push(suffix_inflection("みぃ", "むい", 0, Conditions(Conditions::adj_i).with_subconditions()));
    rules.push(suffix_inflection("ちぃ", "つい", 0, Conditions(Conditions::adj_i).with_subconditions()));
    rules.push(suffix_inflection("せぇ", "すい", 0, Conditions(Conditions::adj_i).with_subconditions()));
    rules.push(suffix_inflection("けぇ", "かい", 0, Conditions(Conditions::adj_i).with_subconditions()));
    rules.push(suffix_inflection("げぇ", "がい", 0, Conditions(Conditions::adj_i).with_subconditions()));
    rules.push(suffix_inflection("げぇ", "ごい", 0, Conditions(Conditions::adj_i).with_subconditions()));
    rules.push(suffix_inflection("せぇ", "さい", 0, Conditions(Conditions::adj_i).with_subconditions()));
    rules.push(suffix_inflection("めぇ", "まい", 0, Conditions(Conditions::adj_i).with_subconditions()));
    rules.push(suffix_inflection("ぜぇ", "ずい", 0, Conditions(Conditions::adj_i).with_subconditions()));
    rules.push(suffix_inflection("っぜぇ", "ずい", 0, Conditions(Conditions::adj_i).with_subconditions()));
    rules.push(suffix_inflection("れぇ", "らい", 0, Conditions(Conditions::adj_i).with_subconditions()));
    rules.push(suffix_inflection("でぇ", "どい", 0, Conditions(Conditions::adj_i).with_subconditions()));
    rules.push(suffix_inflection("れぇ", "れい", 0, Conditions(Conditions::adj_i).with_subconditions()));
    rules.push(suffix_inflection("べぇ", "ばい", 0, Conditions(Conditions::adj_i).with_subconditions()));
    rules.push(suffix_inflection("てぇ", "たい", 0, Conditions(Conditions::adj_i).with_subconditions()));
    proof {
        reveal(rules_42);
        assert(rules_view(rules@) =~~= rules_42());
    }
    Transform { name: "-え", description: "Slang. A sound change of i-adjectives.\n\nai: やばい → やべぇ\nui: さむい → さみぃ/さめぇ\noi: すごい → すげぇ\n", rules }
}

/// The rules of `n-slang`: ending, replacement, conditions in and out,
/// and endings rewritten first.
#[verifier::opaque]
pub open spec fn rules_43() -> Seq<RuleView> {
    seq![
        ("んなさい"@, "りなさい"@, 0u32, subconditions_added(Conditions::nasai), Seq::<(Seq<char>, Seq<char>)>::empty()),
        ("らんない"@, "られない"@, subconditions_added(Conditions::adj_i), subconditions_added(Conditions::adj_i), Seq::<(Seq<char>, Seq<char>)>::empty()),
        ("んない"@, "らない"@, subconditions_added(Conditions::adj_i), subconditions_added(Conditions::adj_i), Seq::<(Seq<char>, Seq<char>)>::empty()),
        ("んなきゃ"@, "らなきゃ"@, 0u32, subconditions_added(Conditions::ya), Seq::<(Seq<char>, Seq<char>)>::empty()),
        ("んなきゃ"@, "れなきゃ"@, 0u32, subconditions_added(Conditions::ya), Seq::<(Seq<char>, Seq<char>)>::empty()),
    ]
}

#[verifier::rlimit(60)]
proof fn lemma_rules_43_ok()
    ensures
        forall|i: int| 0 <= i < rules_43().len() ==> #[trigger] rule_view_ok(rules_43()[i]),
        forall|i: int| 0 <= i < rules_43().len() ==> #[trigger] keeps_godan_rows(rules_43()[i]),
{
    reveal(rules_43);
    reveal_strlit("んなさい");
    lemma_utf8_size_bound("んなさい"@);
    reveal_strlit("りなさい");
    lemma_utf8_size_bound("りなさい"@);
    reveal_strlit("らんない");
    lemma_utf8_size_bound("らんない"@);
    reveal_strlit("られない");
    lemma_utf8_size_bound("られない"@);
    reveal_strlit("んない");
    lemma_utf8_size_bound("んない"@);
    reveal_strlit("らない");
    lemma_utf8_size_bound("らない"@);
    reveal_strlit("んなきゃ");
    lemma_utf8_size_bound("んなきゃ"@);
    reveal_strlit("らなきゃ");
    lemma_utf8_size_bound("らなきゃ"@);
    reveal_strlit("れなきゃ");
    lemma_utf8_size_bound("れなきゃ"@);
}

fn transform_43() -> (r: Transform)
    ensures
        rules_view(r.rules@) == rules_43(),
{
    let mut rules: Vec<Inflection> = Vec::new();
    rules.push(suffix_inflection("んなさい", "りなさい", 0, Conditions(Conditions::nasai).with_subconditions()));
    rules.push(suffix_inflection("らんない", "られない", Conditions(Conditions::adj_i).with_subconditions(), Conditions(Conditions::adj_i).with_subconditions()));
    rules.push(suffix_inflection("んない", "らない", Conditions(Conditions::adj_i).with_subconditions(), Conditions(Conditions::adj_i).with_subconditions()));
    rules.push(suffix_inflection("んなきゃ", "らなきゃ", 0, Conditions(Conditions::ya).with_subconditions()));
    rules.push(suffix_inflection("んなきゃ", "れなきゃ", 0, Conditions(Conditions::ya).with_subconditions()));
    proof {
        reveal(rules_43);
        assert(rules_view(rules@) =~~= rules_43());
    }
    Transform { name: "n-slang", description: "Slang sound change of r-column syllables to n (when before an n-sound, usually の or な)\n", rules }
}

/// The rules of `imperative negative slang`: ending, replacement, conditions in and out,
/// and endings rewritten first.
#[verifier::opaque]
pub open spec fn rules_44() -> Seq<RuleView> {
    seq![
        ("んな"@, "る"@, 0u32, subconditions_added(Conditions::v), Seq::<(Seq<char>, Seq<char>)>::empty()),
    ]
}

#[verifier::rlimit(60)]
proof fn lemma_rules_44_ok()
    ensures
        forall|i: int| 0 <= i < rules_44().len() ==> #[trigger] rule_view_ok(rules_44()[i]),
        forall|i: int| 0 <= i < rules_44().len() ==> #[trigger] keeps_godan_rows(rules_44()[i]),
{
    reveal(rules_44);
    reveal_strlit("んな");
    lemma_utf8_size_bound("んな"@);
    reveal_strlit("る");
    lemma_utf8_size_bound("る"@);
}

fn transform_44() -> (r: Transform)
    ensures
        rules_view(r.rules@) == rules_44(),
{
    let mut rules: Vec<Inflection> = Vec::new();
    rules.push(suffix_inflection("んな", "る", 0, Conditions(Conditions::v).with_subconditions()));
    proof {
        reveal(rules_44);
        assert(rules_view(rules@) =~~= rules_44());
    }
    Transform { name: "imperative negative slang", description: "", rules }
}

/// The rules of `kansai-ben`: ending, replacement, conditions in and out,
/// and endings rewritten first.
#[verifier::opaque]
pub open spec fn rules_45() -> Seq<RuleView> {
    seq![
        ("へん"@, "ない"@, 0u32, subconditions_added(Conditions::adj_i), Seq::<(Seq<char>, Seq<char>)>::empty()),
        ("ひん"@, "ない"@, 0u32, subconditions_added(Conditions::adj_i), Seq::<(Seq<char>, Seq<char>)>::empty()),
        ("せえへん"@, "しない"@, 0u32, subconditions_added(Conditions::adj_i), Seq::<(Seq<char>, Seq<char>)>::empty()),
        ("へんかった"@, "なかった"@, subconditions_added(Conditions::ta), subconditions_added(Conditions::ta), Seq::<(Seq<char>, Seq<char>)>::empty()),
        ("ひんかった"@, "なかった"@, subconditions_added(Conditions::ta), subconditions_added(Conditions::ta), Seq::<(Seq<char>, Seq<char>)>::empty()),
        ("うてへん"@, "ってない"@, 0u32, subconditions_added(Conditions::adj_i), Seq::<(Seq<char>, Seq<char>)>::empty()),
    ]
}

#[verifier::rlimit(60)]
proof fn lemma_rules_45_ok()
    ensures
        forall|i: int| 0 <= i < rules_45().len() ==> #[trigger] rule_view_ok(rules_45()[i]),
        forall|i: int| 0 <= i < rules_45().len() ==> #[trigger] keeps_godan_rows(rules_45()[i]),
{
    reveal(rules_45);
    reveal_strlit("へん");
    lemma_utf8_size_bound("へん"@);
    reveal_strlit("ない");
    lemma_utf8_size_bound("ない"@);
    reveal_strlit("ひん");
    lemma_utf8_size_bound("ひん"@);
    reveal_strlit("せえへん");
    lemma_utf8_size_bound("せえへん"@);
    reveal_strlit("しない");
    lemma_utf8_size_bound("しない"@);
    reveal_strlit("へんかった");
    lemma_utf8_size_bound("へんかった"@);
    reveal_strlit("なかった");
    lemma_utf8_size_bound("なかった"@);
    reveal_strlit("ひんかった");
    lemma_utf8_size_bound("ひんかった"@);
    reveal_strlit("うてへん");
    lemma_utf8_size_bound("うてへん"@);
    reveal_strlit("ってない");
    lemma_utf8_size_bound("ってない"@);
}

fn transform_45() -> (r: Transform)
    ensures
        rules_view(r.rules@) == rules_45(),
{
    let mut rules: Vec<Inflection> = Vec::new();
    rules.push(suffix_inflection("へん", "ない", 0, Conditions(Conditions::adj_i).with_subconditions()));
    rules.push(suffix_inflection("ひん", "ない", 0, Conditions(Conditions::adj_i).with_subconditions()));
    rules.push(suffix_inflection("せえへん", "しない", 0, Conditions(Conditions::adj_i).with_subconditions()));
    rules.push(suffix_inflection("へんかった", "なかった", Conditions(Conditions::ta).with_subconditions(), Conditions(Conditions::ta).with_subconditions()));
    rules.push(suffix_inflection("ひんかった", "なかった", Conditions(Conditions::ta).with_subconditions(), Conditions(Conditions::ta).with_subconditions()));
    rules.push(suffix_inflection("うてへん", "ってない", 0, Conditions(Conditions::adj_i).with_subconditions()));
    proof {
        reveal(rules_45);
        assert(rules_view(rules@) =~~= rules_45());
    }
    Transform { name: "kansai-ben", description: "Negative form of kansai-ben verbs\n", rules }
}

/// The rules of `kansai-ben`: ending, replacement, conditions in and out,
/// and endings rewritten first.
#[verifier::opaque]
pub open spec fn rules_46() -> Seq<RuleView> {
    seq![
        ("うて"@, "って"@, subconditions_added(Conditions::te), subconditions_added(Conditions::te), Seq::<(Seq<char>, Seq<char>)>::empty()),
        ("おうて"@, "あって"@, subconditions_added(Conditions::te), subconditions_added(Conditions::te), Seq::<(Seq<char>, Seq<char>)>::empty()),
        ("こうて"@, "かって"@, subconditions_added(Conditions::te), subconditions_added(Conditions::te), Seq::<(Seq<char>, Seq<char>)>::empty()),
        ("ごうて"@, "がって"@, subconditions_added(Conditions::te), subconditions_added(Conditions::te), Seq::<(Seq<char>, Seq<char>)>::empty()),
        ("そうて"@, "さって"@, subconditions_added(Conditions::te), subconditions_added(Conditions::te), Seq::<(Seq<char>, Seq<char>)>::empty()),
        ("ぞうて"@, "ざって"@, subconditions_added(Conditions::te), subconditions_added(Conditions::te), Seq::<(Seq<char>, Seq<char>)>::empty()),
        ("とうて"@, "たって"@, subconditions_added(Conditions::te), subconditions_added(Conditions::te), Seq::<(Seq<char>, Seq<char>)>::empty()),
        ("どうて"@, "だって"@, subconditions_added(Conditions::te), subconditions_added(Conditions::te), Seq::<(Seq<char>, Seq<char>)>::empty()),
        ("のうて"@, "なって"@, subconditions_added(Conditions::te), subconditions_added(Conditions::te), Seq::<(Seq<char>, Seq<char>)>::empty()),
        ("ほうて"@, "はって"@, subconditions_added(Conditions::te), subconditions_added(Conditions::te), Seq::<(Seq<char>, Seq<char>)>::empty()),
        ("ぼうて"@, "ばって"@, subconditions_added(Conditions::te), subconditions_added(Conditions::te), Seq::<(Seq<char>, Seq<char>)>::empty()),
        ("もうて"@, "まって"@, subconditions_added(Conditions::te), subconditions_added(Conditions::te), Seq::<(Seq<char>, Seq<char>)>::empty()),
        ("ろうて"@, "らって"@, subconditions_added(Conditions::te), subconditions_added(Conditions::te), Seq::<(Seq<char>, Seq<char>)>::empty()),
        ("ようて"@, "やって"@, subconditions_added(Conditions::te), subconditions_added(Conditions::te), Seq::<(Seq<char>, Seq<char>)>::empty()),
        ("ゆうて"@, "いって"@, subconditions_added(Conditions::te), subconditions_added(Conditions::te), Seq::<(Seq<char>, Seq<char>)>::empty()),
    ]
}

#[verifier::rlimit(60)]
proof fn lemma_rules_46_ok()
    ensures
        forall|i: int| 0 <= i < rules_46().len() ==> #[trigger] rule_view_ok(rules_46()[i]),
        forall|i: int| 0 <= i < rules_46().len() ==> #[trigger] keeps_godan_rows(rules_46()[i]),
{
    reveal(rules_46);
    reveal_strlit("うて");
    lemma_utf8_size_bound("うて"@);
    reveal_strlit("って");
    lemma_utf8_size_bound("って"@);
    reveal_strlit("おうて");
    lemma_utf8_size_bound("おうて"@);
    reveal_strlit("あって");
    lemma_utf8_size_bound("あって"@);
    reveal_strlit("こうて");
    lemma_utf8_size_bound("こうて"@);
    reveal_strlit("かって");
    lemma_utf8_size_bound("かって"@);
    reveal_strlit("ごうて");
    lemma_utf8_size_bound("ごうて"@);
    reveal_strlit("がって");
    lemma_utf8_size_bound("がって"@);
    reveal_strlit("そうて");
    lemma_utf8_size_bound("そうて"@);
    reveal_strlit("さって");
    lemma_utf8_size_bound("さって"@);
    reveal_strlit("ぞうて");
    lemma_utf8_size_bound("ぞうて"@);
    reveal_strlit("ざって");
    lemma_utf8_size_bound("ざって"@);
    reveal_strlit("とうて");
    lemma_utf8_size_bound("とうて"@);
    reveal_strlit("たって");
    lemma_utf8_size_bound("たって"@);
    reveal_strlit("どうて");
    lemma_utf8_size_bound("どうて"@);
    reveal_strlit("だって");
    lemma_utf8_size_bound("だって"@);
    reveal_strlit("のうて");
    lemma_utf8_size_bound("のうて"@);
    reveal_strlit("なって");
    lemma_utf8_size_bound("なって"@);
    reveal_strlit("ほうて");
    lemma_utf8_size_bound("ほうて"@);
    reveal_strlit("はって");
    lemma_utf8_size_bound("はって"@);
    reveal_strlit("ぼうて");
    lemma_utf8_size_bound("ぼうて"@);
    reveal_strlit("ばって");
    lemma_utf8_size_bound("ばって"@);
    reveal_strlit("もうて");
    lemma_utf8_size_bound("もうて"@);
    reveal_strlit("まって");
    lemma_utf8_size_bound("まって"@);
    reveal_strlit("ろうて");
    lemma_utf8_size_bound("ろうて"@);
    reveal_strlit("らって");
    lemma_utf8_size_bound("らって"@);
    reveal_strlit("ようて");
    lemma_utf8_size_bound("ようて"@);
    reveal_strlit("やって");
    lemma_utf8_size_bound("やって"@);
    reveal_strlit("ゆうて");
    lemma_utf8_size_bound("ゆうて"@);
    reveal_strlit("いって");
    lemma_utf8_size_bound("いって"@);
}

fn transform_46() -> (r: Transform)
    ensures
        rules_view(r.rules@) == rules_46(),
{
    let mut rules: Vec<Inflection> = Vec::new();
    rules.push(suffix_inflection("うて", "って", Conditions(Conditions::te).with_subconditions(), Conditions(Conditions::te).with_subconditions()));
    rules.push(suffix_inflection("おうて", "あって", Conditions(Conditions::te).with_subconditions(), Conditions(Conditions::te).with_subconditions()));
    rules.push(suffix_inflection("こうて", "かって", Conditions(Conditions::te).with_subconditions(), Conditions(Conditions::te).with_subconditions()));
    rules.push(suffix_inflection("ごうて", "がって", Conditions(Conditions::te).with_subconditions(), Conditions(Conditions::te).with_subconditions()));
    rules.push(suffix_inflection("そうて", "さって", Conditions(Conditions::te).with_subconditions(), Conditions(Conditions::te).with_subconditions()));
    rules.push(suffix_inflection("ぞうて", "ざって", Conditions(Conditions::te).with_subconditions(), Conditions(Conditions::te).with_subconditions()));
    rules.push(suffix_inflection("とうて", "たって", Conditions(Conditions::te).with_subconditions(), Conditions(Conditions::te).with_subconditions()));
    rules.push(suffix_inflection("どうて", "だって", Conditions(Conditions::te).with_subconditions(), Conditions(Conditions::te).with_subconditions()));
    rules.push(suffix_inflection("のうて", "なって", Conditions(Conditions::te).with_subconditions(), Conditions(Conditions::te).with_subconditions()));
    rules.push(suffix_inflection("ほうて", "はって", Conditions(Conditions::te).with_subconditions(), Conditions(Conditions::te).with_subconditions()));
    rules.push(suffix_inflection("ぼうて", "ばって", Conditions(Conditions::te).with_subconditions(), Conditions(Conditions::te).with_subconditions()));
    rules.push(suffix_inflection("もうて", "まって", Conditions(Conditions::te).with_subconditions(), Conditions(Conditions::te).with_subconditions()));
    rules.push(suffix_inflection("ろうて", "らって", Conditions(Conditions::te).with_subconditions(), Conditions(Conditions::te).with_subconditions()));
    rules.push(suffix_inflection("ようて", "やって", Conditions(Conditions::te).with_subconditions(), Conditions(Conditions::te).with_subconditions()));
    rules.push(suffix_inflection("ゆうて", "いって", Conditions(Conditions::te).with_subconditions(), Conditions(Conditions::te).with_subconditions()));
    proof {
        reveal(rules_46);
        assert(rules_view(rules@) =~~= rules_46());
    }
    Transform { name: "kansai-ben", description: "-て form of kansai-ben verbs\n", rules }
}

/// The rules of `kansai-ben`: ending, replacement, conditions in and out,
/// and endings rewritten first.
#[verifier::opaque]
pub open spec fn rules_47() -> Seq<RuleView> {
    seq![
        ("うた"@, "った"@, subconditions_added(Conditions::ta), subconditions_added(Conditions::ta), Seq::<(Seq<char>, Seq<char>)>::empty()),
        ("おうた"@, "あった"@, subconditions_added(Conditions::ta), subconditions_added(Conditions::ta), Seq::<(Seq<char>, Seq<char>)>::empty()),
        ("こうた"@, "かった"@, subconditions_added(Conditions::ta), subconditions_added(Conditions::ta), Seq::<(Seq<char>, Seq<char>)>::empty()),
        ("ごうた"@, "がった"@, subconditions_added(Conditions::ta), subconditions_added(Conditions::ta), Seq::<(Seq<char>, Seq<char>)>::empty()),
        ("そうた"@, "さった"@, subconditions_added(Conditions::ta), subconditions_added(Conditions::ta), Seq::<(Seq<char>, Seq<char>)>::empty()),
        ("ぞうた"@, "ざった"@, subconditions_added(Conditions::ta), subconditions_added(Conditions::ta), Seq::<(Seq<char>, Seq<char>)>::empty()),
        ("とうた"@, "たった"@, subconditions_added(Conditions::ta), subconditions_added(Conditions::ta), Seq::<(Seq<char>, Seq<char>)>::empty()),
        ("どうた"@, "だった"@, subconditions_added(Conditions::ta), subconditions_added(Conditions::ta), Seq::<(Seq<char>, Seq<char>)>::empty()),
        ("のうた"@, "なった"@, subconditions_added(Conditions::ta), subconditions_added(Conditions::ta), Seq::<(Seq<char>, Seq<char>)>::empty()),
        ("ほうた"@, "はった"@, subconditions_added(Conditions::ta), subconditions_added(Conditions::ta), Seq::<(Seq<char>, Seq<char>)>::empty()),
        ("ぼうた"@, "ばった"@, subconditions_added(Conditions::ta), subconditions_added(Conditions::ta), Seq::<(Seq<char>, Seq<char>)>::empty()),
        ("もうた"@, "まった"@, subconditions_added(Conditions::ta), subconditions_added(Conditions::ta), Seq::<(Seq<char>, Seq<char>)>::empty()),
        ("ろうた"@, "らった"@, subconditions_added(Conditions::ta), subconditions_added(Conditions::ta), Seq::<(Seq<char>, Seq<char>)>::empty()),
        ("ようた"@, "やった"@, subconditions_added(Conditions::ta), subconditions_added(Conditions::ta), Seq::<(Seq<char>, Seq<char>)>::empty()),
        ("ゆうた"@, "いった"@, subconditions_added(Conditions::ta), subconditions_added(Conditions::ta), Seq::<(Seq<char>, Seq<char>)>::empty()),
    ]
}

#[verifier::rlimit(60)]
proof fn lemma_rules_47_ok()
    ensures
        forall|i: int| 0 <= i < rules_47().len() ==> #[trigger] rule_view_ok(rules_47()[i]),
        forall|i: int| 0 <= i < rules_47().len() ==> #[trigger] keeps_godan_rows(rules_47()[i]),
{
    reveal(rules_47);
    reveal_strlit("うた");
    lemma_utf8_size_bound("うた"@);
    reveal_strlit("った");
    lemma_utf8_size_bound("った"@);
    reveal_strlit("おうた");
    lemma_utf8_size_bound("おうた"@);
    reveal_strlit("あった");
    lemma_utf8_size_bound("あった"@);
    reveal_strlit("こうた");
    lemma_utf8_size_bound("こうた"@);
    reveal_strlit("かった");
    lemma_utf8_size_bound("かった"@);
    reveal_strlit("ごうた");
    lemma_utf8_size_bound("ごうた"@);
    reveal_strlit("がった");
    lemma_utf8_size_bound("がった"@);
    reveal_strlit("そうた");
    lemma_utf8_size_bound("そうた"@);
    reveal_strlit("さった");
    lemma_utf8_size_bound("さった"@);
    reveal_strlit("ぞうた");
    lemma_utf8_size_bound("ぞうた"@);
    reveal_strlit("ざった");
    lemma_utf8_size_bound("ざった"@);
    reveal_strlit("とうた");
    lemma_utf8_size_bound("とうた"@);
    reveal_strlit("たった");
    lemma_utf8_size_bound("たった"@);
    reveal_strlit("どうた");
    lemma_utf8_size_bound("どうた"@);
    reveal_strlit("だった");
    lemma_utf8_size_bound("だった"@);
    reveal_strlit("のうた");
    lemma_utf8_size_bound("のうた"@);
    reveal_strlit("なった");
    lemma_utf8_size_bound("なった"@);
    reveal_strlit("ほうた");
    lemma_utf8_size_bound("ほうた"@);
    reveal_strlit("はった");
    lemma_utf8_size_bound("はった"@);
    reveal_strlit("ぼうた");
    lemma_utf8_size_bound("ぼうた"@);
    reveal_strlit("ばった");
    lemma_utf8_size_bound("ばった"@);
    reveal_strlit("もうた");
    lemma_utf8_size_bound("もうた"@);
    reveal_strlit("まった");
    lemma_utf8_size_bound("まった"@);
    reveal_strlit("ろうた");
    lemma_utf8_size_bound("ろうた"@);
    reveal_strlit("らった");
    lemma_utf8_size_bound("らった"@);
    reveal_strlit("ようた");
    lemma_utf8_size_bound("ようた"@);
    reveal_strlit("やった");
    lemma_utf8_size_bound("やった"@);
    reveal_strlit("ゆうた");
    lemma_utf8_size_bound("ゆうた"@);
    reveal_strlit("いった");
    lemma_utf8_size_bound("いった"@);
}

fn transform_47() -> (r: Transform)
    ensures
        rules_view(r.rules@) == rules_47(),
{
    let mut rules: Vec<Inflection> = Vec::new();
    rules.push(suffix_inflection("うた", "った", Conditions(Conditions::ta).with_subconditions(), Conditions(Conditions::ta).with_subconditions()));
    rules.push(suffix_inflection("おうた", "あった", Conditions(Conditions::ta).with_subconditions(), Conditions(Conditions::ta).with_subconditions()));
    rules.push(suffix_inflection("こうた", "かった", Conditions(Conditions::ta).with_subconditions(), Conditions(Conditions::ta).with_subconditions()));
    rules.push(suffix_inflection("ごうた", "がった", Conditions(Conditions::ta).with_subconditions(), Conditions(Conditions::ta).with_subconditions()));
    rules.push(suffix_inflection("そうた", "さった", Conditions(Conditions::ta).with_subconditions(), Conditions(Conditions::ta).with_subconditions()));
    rules.push(suffix_inflection("ぞうた", "ざった", Conditions(Conditions::ta).with_subconditions(), Conditions(Conditions::ta).with_subconditions()));
    rules.push(suffix_inflection("とうた", "たった", Conditions(Conditions::ta).with_subconditions(), Conditions(Conditions::ta).with_subconditions()));
    rules.push(suffix_inflection("どうた", "だった", Conditions(Conditions::ta).with_subconditions(), Conditions(Conditions::ta).with_subconditions()));
    rules.push(suffix_inflection("のうた", "なった", Conditions(Conditions::ta).with_subconditions(), Conditions(Conditions::ta).with_subconditions()));
    rules.push(suffix_inflection("ほうた", "はった", Conditions(Conditions::ta).with_subconditions(), Conditions(Conditions::ta).with_subconditions()));
    rules.push(suffix_inflection("ぼうた", "ばった", Conditions(Conditions::ta).with_subconditions(), Conditions(Conditions::ta).with_subconditions()));
    rules.push(suffix_inflection("もうた", "まった", Conditions(Conditions::ta).with_subconditions(), Conditions(Conditions::ta).with_subconditions()));
    rules.push(suffix_inflection("ろうた", "らった", Conditions(Conditions::ta).with_subconditions(), Conditions(Conditions::ta).with_subconditions()));
    rules.push(suffix_inflection("ようた", "やった", Conditions(Conditions::ta).with_subconditions(), Conditions(Conditions::ta).with_subconditions()));
    rules.push(suffix_inflection("ゆうた", "いった", Conditions(Conditions::ta).with_subconditions(), Conditions(Conditions::ta).with_subconditions()));
    proof {
        reveal(rules_47);
        assert(rules_view(rules@) =~~= rules_47());
    }
    Transform { name: "kansai-ben", description: "-た form of kansai-ben terms\n", rules }
}

/// The rules of `kansai-ben`: ending, replacement, conditions in and out,
/// and endings rewritten first.
#[verifier::opaque]
pub open spec fn rules_48() -> Seq<RuleView> {
    seq![
        ("うたら"@, "ったら"@, 0u32, 0u32, Seq::<(Seq<char>, Seq<char>)>::empty()),
        ("おうたら"@, "あったら"@, 0u32, 0u32, Seq::<(Seq<char>, Seq<char>)>::empty()),
        ("こうたら"@, "かったら"@, 0u32, 0u32, Seq::<(Seq<char>, Seq<char>)>::empty()),
        ("ごうたら"@, "がったら"@, 0u32, 0u32, Seq::<(Seq<char>, Seq<char>)>::empty()),
        ("そうたら"@, "さったら"@, 0u32, 0u32, Seq::<(Seq<char>, Seq<char>)>::empty()),
        ("ぞうたら"@, "ざったら"@, 0u32, 0u32, Seq::<(Seq<char>, Seq<char>)>::empty()),
        ("とうたら"@, "たったら"@, 0u32, 0u32, Seq::<(Seq<char>, Seq<char>)>::empty()),
        ("どうたら"@, "だったら"@, 0u32, 0u32, Seq::<(Seq<char>, Seq<char>)>::empty()),
        ("のうたら"@, "なったら"@, 0u32, 0u32, Seq::<(Seq<char>, Seq<char>)>::empty()),
        ("ほうたら"@, "はったら"@, 0u32, 0u32, Seq::<(Seq<char>, Seq<char>)>::empty()),
        ("ぼうたら"@, "ばったら"@, 0u32, 0u32, Seq::<(Seq<char>, Seq<char>)>::empty()),
        ("もうたら"@, "まったら"@, 0u32, 0u32, Seq::<(Seq<char>, Seq<char>)>::empty()),
        ("ろうたら"@, "らったら"@, 0u32, 0u32, Seq::<(Seq<char>, Seq<char>)>::empty()),
        ("ようたら"@, "やったら"@, 0u32, 0u32, Seq::<(Seq<char>, Seq<char>)>::empty()),
        ("ゆうたら"@, "いったら"@, 0u32, 0u32, Seq::<(Seq<char>, Seq<char>)>::empty()),
    ]
}

#[verifier::rlimit(60)]
proof fn lemma_rules_48_ok()
    ensures
        forall|i: int| 0 <= i < rules_48().len() ==> #[trigger] rule_view_ok(rules_48()[i]),
        forall|i: int| 0 <= i < rules_48().len() ==> #[trigger] keeps_godan_rows(rules_48()[i]),
{
    reveal(rules_48);
    reveal_strlit("うたら");
    lemma_utf8_size_bound("うたら"@);
    reveal_strlit("ったら");
    lemma_utf8_size_bound("ったら"@);
    reveal_strlit("おうたら");
    lemma_utf8_size_bound("おうたら"@);
    reveal_strlit("あったら");
    lemma_utf8_size_bound("あったら"@);
    reveal_strlit("こうたら");
    lemma_utf8_size_bound("こうたら"@);
    reveal_strlit("かったら");
    lemma_utf8_size_bound("かったら"@);
    reveal_strlit("ごうたら");
    lemma_utf8_size_bound("ごうたら"@);
    reveal_strlit("がったら");
    lemma_utf8_size_bound("がったら"@);
    reveal_strlit("そうたら");
    lemma_utf8_size_bound("そうたら"@);
    reveal_strlit("さったら");
    lemma_utf8_size_bound("さったら"@);
    reveal_strlit("ぞうたら");
    lemma_utf8_size_bound("ぞうたら"@);
    reveal_strlit("ざったら");
    lemma_utf8_size_bound("ざったら"@);
    reveal_strlit("とうたら");
    lemma_utf8_size_bound("とうたら"@);
    reveal_strlit("たったら");
    lemma_utf8_size_bound("たったら"@);
    reveal_strlit("どうたら");
    lemma_utf8_size_bound("どうたら"@);
    reveal_strlit("だったら");
    lemma_utf8_size_bound("だったら"@);
    reveal_strlit("のうたら");
    lemma_utf8_size_bound("のうたら"@);
    reveal_strlit("なったら");
    lemma_utf8_size_bound("なったら"@);
    reveal_strlit("ほうたら");
    lemma_utf8_size_bound("ほうたら"@);
    reveal_strlit("はったら");
    lemma_utf8_size_bound("はったら"@);
    reveal_strlit("ぼうたら");
    lemma_utf8_size_bound("ぼうたら"@);
    reveal_strlit("ばったら");
    lemma_utf8_size_bound("ばったら"@);
    reveal_strlit("もうたら");
    lemma_utf8_size_bound("もうたら"@);
    reveal_strlit("まったら");
    lemma_utf8_size_bound("まったら"@);
    reveal_strlit("ろうたら");
    lemma_utf8_size_bound("ろうたら"@);
    reveal_strlit("らったら");
    lemma_utf8_size_bound("らったら"@);
    reveal_strlit("ようたら");
    lemma_utf8_size_bound("ようたら"@);
    reveal_strlit("やったら");
    lemma_utf8_size_bound("やったら"@);
    reveal_strlit("ゆうたら");
    lemma_utf8_size_bound("ゆうたら"@);
    reveal_strlit("いったら");
    lemma_utf8_size_bound("いったら"@);
}

fn transform_48() -> (r: Transform)
    ensures
        rules_view(r.rules@) == rules_48(),
{
    let mut rules: Vec<Inflection> = Vec::new();
    rules.push(suffix_inflection("うたら", "ったら", 0, 0));
    rules.push(suffix_inflection("おうたら", "あったら", 0, 0));
    rules.push(suffix_inflection("こうたら", "かったら", 0, 0));
    rules.push(suffix_inflection("ごうたら", "がったら", 0, 0));
    rules.push(suffix_inflection("そうたら", "さったら", 0, 0));
    rules.push(suffix_inflection("ぞうたら", "ざったら", 0, 0));
    rules.push(suffix_inflection("とうたら", "たったら", 0, 0));
    rules.push(suffix_inflection("どうたら", "だったら", 0, 0));
    rules.push(suffix_inflection("のうたら", "なったら", 0, 0));
    rules.push(suffix_inflection("ほうたら", "はったら", 0, 0));
    rules.push(suffix_inflection("ぼうたら", "ばったら", 0, 0));
    rules.push(suffix_inflection("もうたら", "まったら", 0, 0));
    rules.push(suffix_inflection("ろうたら", "らったら", 0, 0));
    rules.push(suffix_inflection("ようたら", "やったら", 0, 0));
    rules.push(suffix_inflection("ゆうたら", "いったら", 0, 0));
    proof {
        reveal(rules_48);
        assert(rules_view(rules@) =~~= rules_48());
    }
    Transform { name: "kansai-ben", description: "-たら form of kansai-ben terms\n", rules }
}

/// The rules of `kansai-ben`: ending, replacement, conditions in and out,
/// and endings rewritten first.
#[verifier::opaque]
pub open spec fn rules_49() -> Seq<RuleView> {
    seq![
        ("うたり"@, "ったり"@, 0u32, 0u32, Seq::<(Seq<char>, Seq<char>)>::empty()),
        ("おうたり"@, "あったり"@, 0u32, 0u32, Seq::<(Seq<char>, Seq<char>)>::empty()),
        ("こうたり"@, "かったり"@, 0u32, 0u32, Seq::<(Seq<char>, Seq<char>)>::empty()),
        ("ごうたり"@, "がったり"@, 0u32, 0u32, Seq::<(Seq<char>, Seq<char>)>::empty()),
        ("そうたり"@, "さったり"@, 0u32, 0u32, Seq::<(Seq<char>, Seq<char>)>::empty()),
        ("ぞうたり"@, "ざったり"@, 0u32, 0u32, Seq::<(Seq<char>, Seq<char>)>::empty()),
        ("とうたり"@, "たったり"@, 0u32, 0u32, Seq::<(Seq<char>, Seq<char>)>::empty()),
        ("どうたり"@, "だったり"@, 0u32, 0u32, Seq::<(Seq<char>, Seq<char>)>::empty()),
        ("のうたり"@, "なったり"@, 0u32, 0u32, Seq::<(Seq<char>, Seq<char>)>::empty()),
        ("ほうたり"@, "はったり"@, 0u32, 0u32, Seq::<(Seq<char>, Seq<char>)>::empty()),
        ("ぼうたり"@, "ばったり"@, 0u32, 0u32, Seq::<(Seq<char>, Seq<char>)>::empty()),
        ("もうたり"@, "まったり"@, 0u32, 0u32, Seq::<(Seq<char>, Seq<char>)>::empty()),
        ("ろうたり"@, "らったり"@, 0u32, 0u32, Seq::<(Seq<char>, Seq<char>)>::empty()),
        ("ようたり"@, "やったり"@, 0u32, 0u32, Seq::<(Seq<char>, Seq<char>)>::empty()),
        ("ゆうたり"@, "いったり"@, 0u32, 0u32, Seq::<(Seq<char>, Seq<char>)>::empty()),
    ]
}

#[verifier::rlimit(60)]
proof fn lemma_rules_49_ok()
    ensures
        forall|i: int| 0 <= i < rules_49().len() ==> #[trigger] rule_view_ok(rules_49()[i]),
        forall|i: int| 0 <= i < rules_49().len() ==> #[trigger] keeps_godan_rows(rules_49()[i]),
{
    reveal(rules_49);
    reveal_strlit("うたり");
    lemma_utf8_size_bound("うたり"@);
    reveal_strlit("ったり");
    lemma_utf8_size_bound("ったり"@);
    reveal_strlit("おうたり");
    lemma_utf8_size_bound("おうたり"@);
    reveal_strlit("あったり");
    lemma_utf8_size_bound("あったり"@);
    reveal_strlit("こうたり");
    lemma_utf8_size_bound("こうたり"@);
    reveal_strlit("かったり");
    lemma_utf8_size_bound("かったり"@);
    reveal_strlit("ごうたり");
    lemma_utf8_size_bound("ごうたり"@);
    reveal_strlit("がったり");
    lemma_utf8_size_bound("がったり"@);
    reveal_strlit("そうたり");
    lemma_utf8_size_bound("そうたり"@);
    reveal_strlit("さったり");
    lemma_utf8_size_bound("さったり"@);
    reveal_strlit("ぞうたり");
    lemma_utf8_size_bound("ぞうたり"@);
    reveal_strlit("ざったり");
    lemma_utf8_size_bound("ざったり"@);
    reveal_strlit("とうたり");
    lemma_utf8_size_bound("とうたり"@);
    reveal_strlit("たったり");
    lemma_utf8_size_bound("たったり"@);
    reveal_strlit("どうたり");
    lemma_utf8_size_bound("どうたり"@);
    reveal_strlit("だったり");
    lemma_utf8_size_bound("だったり"@);
    reveal_strlit("のうたり");
    lemma_utf8_size_bound("のうたり"@);
    reveal_strlit("なったり");
    lemma_utf8_size_bound("なったり"@);
    reveal_strlit("ほうたり");
    lemma_utf8_size_bound("ほうたり"@);
    reveal_strlit("はったり");
    lemma_utf8_size_bound("はったり"@);
    reveal_strlit("ぼうたり");
    lemma_utf8_size_bound("ぼうたり"@);
    reveal_strlit("ばったり");
    lemma_utf8_size_bound("ばったり"@);
    reveal_strlit("もうたり");
    lemma_utf8_size_bound("もうたり"@);
    reveal_strlit("まったり");
    lemma_utf8_size_bound("まったり"@);
    reveal_strlit("ろうたり");
    lemma_utf8_size_bound("ろうたり"@);
    reveal_strlit("らったり");
    lemma_utf8_size_bound("らったり"@);
    reveal_strlit("ようたり");
    lemma_utf8_size_bound("ようたり"@);
    reveal_strlit("やったり");
    lemma_utf8_size_bound("やったり"@);
    reveal_strlit("ゆうたり");
    lemma_utf8_size_bound("ゆうたり"@);
    reveal_strlit("いったり");
    lemma_utf8_size_bound("いったり"@);
}

fn transform_49() -> (r: Transform)
    ensures
        rules_view(r.rules@) == rules_49(),
{
    let mut rules: Vec<Inflection> = Vec::new();
    rules.push(suffix_inflection("うたり", "ったり", 0, 0));
    rules.push(suffix_inflection("おうたり", "あったり", 0, 0));
    rules.push(suffix_inflection("こうたり", "かったり", 0, 0));
    rules.push(suffix_inflection("ごうたり", "がったり", 0, 0));
    rules.push(suffix_inflection("そうたり", "さったり", 0, 0));
    rules.push(suffix_inflection("ぞうたり", "ざったり", 0, 0));
    rules.push(suffix_inflection("とうたり", "たったり", 0, 0));
    rules.push(suffix_inflection("どうたり", "だったり", 0, 0));
    rules.push(suffix_inflection("のうたり", "なったり", 0, 0));
    rules.push(suffix_inflection("ほうたり", "はったり", 0, 0));
    rules.push(suffix_inflection("ぼうたり", "ばったり", 0, 0));
    rules.push(suffix_inflection("もうたり", "まったり", 0, 0));
    rules.push(suffix_inflection("ろうたり", "らったり", 0, 0));
    rules.push(suffix_inflection("ようたり", "やったり", 0, 0));
    rules.push(suffix_inflection("ゆうたり", "いったり", 0, 0));
    proof {
        reveal(rules_49);
        assert(rules_view(rules@) =~~= rules_49());
    }
    Transform { name: "kansai-ben", description: "-たり form of kansai-ben terms\n", rules }
}

/// The rules of `kansai-ben`: ending, replacement, conditions in and out,
/// and endings rewritten first.
#[verifier::opaque]
pub open spec fn rules_50() -> Seq<RuleView> {
    seq![
        ("う"@, "く"@, 0u32, subconditions_added(Conditions::ku), Seq::<(Seq<char>, Seq<char>)>::empty()),
        ("こう"@, "かく"@, 0u32, subconditions_added(Conditions::ku), Seq::<(Seq<char>, Seq<char>)>::empty()),
        ("ごう"@, "がく"@, 0u32, subconditions_added(Conditions::ku), Seq::<(Seq<char>, Seq<char>)>::empty()),
        ("そう"@, "さく"@, 0u32, subconditions_added(Conditions::ku), Seq::<(Seq<char>, Seq<char>)>::empty()),
        ("とう"@, "たく"@, 0u32, subconditions_added(Conditions::ku), Seq::<(Seq<char>, Seq<char>)>::empty()),
        ("のう"@, "なく"@, 0u32, subconditions_added(Conditions::ku), Seq::<(Seq<char>, Seq<char>)>::empty()),
        ("ぼう"@, "ばく"@, 0u32, subconditions_added(Conditions::ku), Seq::<(Seq<char>, Seq<char>)>::empty()),
        ("もう"@, "まく"@, 0u32, subconditions_added(Conditions::ku), Seq::<(Seq<char>, Seq<char>)>::empty()),
        ("ろう"@, "らく"@, 0u32, subconditions_added(Conditions::ku), Seq::<(Seq<char>, Seq<char>)>::empty()),
        ("よう"@, "よく"@, 0u32, subconditions_added(Conditions::ku), Seq::<(Seq<char>, Seq<char>)>::empty()),
        ("しゅう"@, "しく"@, 0u32, subconditions_added(Conditions::ku), Seq::<(Seq<char>, Seq<char>)>::empty()),
    ]
}

#[verifier::rlimit(60)]
proof fn lemma_rules_50_ok()
    ensures
        forall|i: int| 0 <= i < rules_50().len() ==> #[trigger] rule_view_ok(rules_50()[i]),
        forall|i: int| 0 <= i < rules_50().len() ==> #[trigger] keeps_godan_rows(rules_50()[i]),
{
    reveal(rules_50);
    reveal_strlit("う");
    lemma_utf8_size_bound("う"@);
    reveal_strlit("く");
    lemma_utf8_size_bound("く"@);
    reveal_strlit("こう");
    lemma_utf8_size_bound("こう"@);
    reveal_strlit("かく");
    lemma_utf8_size_bound("かく"@);
    reveal_strlit("ごう");
    lemma_utf8_size_bound("ごう"@);
    reveal_strlit("がく");
    lemma_utf8_size_bound("がく"@);
    reveal_strlit("そう");
    lemma_utf8_size_bound("そう"@);
    reveal_strlit("さく");
    lemma_utf8_size_bound("さく"@);
    reveal_strlit("とう");
    lemma_utf8_size_bound("とう"@);
    reveal_strlit("たく");
    lemma_utf8_size_bound("たく"@);
    reveal_strlit("のう");
    lemma_utf8_size_bound("のう"@);
    reveal_strlit("なく");
    lemma_utf8_size_bound("なく"@);
    reveal_strlit("ぼう");
    lemma_utf8_size_bound("ぼう"@);
    reveal_strlit("ばく");
    lemma_utf8_size_bound("ばく"@);
    reveal_strlit("もう");
    lemma_utf8_size_bound("もう"@);
    reveal_strlit("まく");
    lemma_utf8_size_bound("まく"@);
    reveal_strlit("ろう");
    lemma_utf8_size_bound("ろう"@);
    reveal_strlit("らく");
    lemma_utf8_size_bound("らく"@);
    reveal_strlit("よう");
    lemma_utf8_size_bound("よう"@);
    reveal_strlit("よく");
    lemma_utf8_size_bound("よく"@);
    reveal_strlit("しゅう");
    lemma_utf8_size_bound("しゅう"@);
    reveal_strlit("しく");
    lemma_utf8_size_bound("しく"@);
}

fn transform_50() -> (r: Transform)
    ensures
        rules_view(r.rules@) == rules_50(),
{
    let mut rules: Vec<Inflection> = Vec::new();
    rules.push(suffix_inflection("う", "く", 0, Conditions(Conditions::ku).with_subconditions()));
    rules.push(suffix_inflection("こう", "かく", 0, Conditions(Conditions::ku).with_subconditions()));
    rules.push(suffix_inflection("ごう", "がく", 0, Conditions(Conditions::ku).with_subconditions()));
    rules.push(suffix_inflection("そう", "さく", 0, Conditions(Conditions::ku).with_subconditions()));
    rules.push(suffix_inflection("とう", "たく", 0, Conditions(Conditions::ku).with_subconditions()));
    rules.push(suffix_inflection("のう", "なく", 0, Conditions(Conditions::ku).with_subconditions()));
    rules.push(suffix_inflection("ぼう", "ばく", 0, Conditions(Conditions::ku).with_subconditions()));
    rules.push(suffix_inflection("もう", "まく", 0, Conditions(Conditions::ku).with_subconditions()));
    rules.push(suffix_inflection("ろう", "らく", 0, Conditions(Conditions::ku).with_subconditions()));
    rules.push(suffix_inflection("よう", "よく", 0, Conditions(Conditions::ku).with_subconditions()));
    rules.push(suffix_inflection("しゅう", "しく", 0, Conditions(Conditions::ku).with_subconditions()));
    proof {
        reveal(rules_50);
        assert(rules_view(rules@) =~~= rules_50());
    }
    Transform { name: "kansai-ben", description: "-く stem of kansai-ben adjectives\n", rules }
}

/// The rules of `kansai-ben`: ending, replacement, conditions in and out,
/// and endings rewritten first.
#[verifier::opaque]
pub open spec fn rules_51() -> Seq<RuleView> {
    seq![
        ("うて"@, "くて"@, subconditions_added(Conditions::te), subconditions_added(Conditions::te), Seq::<(Seq<char>, Seq<char>)>::empty()),
        ("こうて"@, "かくて"@, subconditions_added(Conditions::te), subconditions_added(Conditions::te), Seq::<(Seq<char>, Seq<char>)>::empty()),
        ("ごうて"@, "がくて"@, subconditions_added(Conditions::te), subconditions_added(Conditions::te), Seq::<(Seq<char>, Seq<char>)>::empty()),
        ("そうて"@, "さくて"@, subconditions_added(Conditions::te), subconditions_added(Conditions::te), Seq::<(Seq<char>, Seq<char>)>::empty()),
        ("とうて"@, "たくて"@, subconditions_added(Conditions::te), subconditions_added(Conditions::te), Seq::<(Seq<char>, Seq<char>)>::empty()),
        ("のうて"@, "なくて"@, subconditions_added(Conditions::te), subconditions_added(Conditions::te), Seq::<(Seq<char>, Seq<char>)>::empty()),
        ("ぼうて"@, "ばくて"@, subconditions_added(Conditions::te), subconditions_added(Conditions::te), Seq::<(Seq<char>, Seq<char>)>::empty()),
        ("もうて"@, "まくて"@, subconditions_added(Conditions::te), subconditions_added(Conditions::te), Seq::<(Seq<char>, Seq<char>)>::empty()),
        ("ろうて"@, "らくて"@, subconditions_added(Conditions::te), subconditions_added(Conditions::te), Seq::<(Seq<char>, Seq<char>)>::empty()),
        ("ようて"@, "よくて"@, subconditions_added(Conditions::te), subconditions_added(Conditions::te), Seq::<(Seq<char>, Seq<char>)>::empty()),
        ("しゅうて"@, "しくて"@, subconditions_added(Conditions::te), subconditions_added(Conditions::te), Seq::<(Seq<char>, Seq<char>)>::empty()),
    ]
}

#[verifier::rlimit(60)]
proof fn lemma_rules_51_ok()
    ensures
        forall|i: int| 0 <= i < rules_51().len() ==> #[trigger] rule_view_ok(rules_51()[i]),
        forall|i: int| 0 <= i < rules_51().len() ==> #[trigger] keeps_godan_rows(rules_51()[i]),
{
    reveal(rules_51);
    reveal_strlit("うて");
    lemma_utf8_size_bound("うて"@);
    reveal_strlit("くて");
    lemma_utf8_size_bound("くて"@);
    reveal_strlit("こうて");
    lemma_utf8_size_bound("こうて"@);
    reveal_strlit("かくて");
    lemma_utf8_size_bound("かくて"@);
    reveal_strlit("ごうて");
    lemma_utf8_size_bound("ごうて"@);
    reveal_strlit("がくて");
    lemma_utf8_size_bound("がくて"@);
    reveal_strlit("そうて");
    lemma_utf8_size_bound("そうて"@);
    reveal_strlit("さくて");
    lemma_utf8_size_bound("さくて"@);
    reveal_strlit("とうて");
    lemma_utf8_size_bound("とうて"@);
    reveal_strlit("たくて");
    lemma_utf8_size_bound("たくて"@);
    reveal_strlit("のうて");
    lemma_utf8_size_bound("のうて"@);
    reveal_strlit("なくて");
    lemma_utf8_size_bound("なくて"@);
    reveal_strlit("ぼうて");
    lemma_utf8_size_bound("ぼうて"@);
    reveal_strlit("ばくて");
    lemma_utf8_size_bound("ばくて"@);
    reveal_strlit("もうて");
    lemma_utf8_size_bound("もうて"@);
    reveal_strlit("まくて");
    lemma_utf8_size_bound("まくて"@);
    reveal_strlit("ろうて");
    lemma_utf8_size_bound("ろうて"@);
    reveal_strlit("らくて");
    lemma_utf8_size_bound("らくて"@);
    reveal_strlit("ようて");
    lemma_utf8_size_bound("ようて"@);
    reveal_strlit("よくて");
    lemma_utf8_size_bound("よくて"@);
    reveal_strlit("しゅうて");
    lemma_utf8_size_bound("しゅうて"@);
    reveal_strlit("しくて");
    lemma_utf8_size_bound("しくて"@);
}

fn transform_51() -> (r: Transform)
    ensures
        rules_view(r.rules@) == rules_51(),
{
    let mut rules: Vec<Inflection> = Vec::new();
    rules.push(suffix_inflection("うて", "くて", Conditions(Conditions::te).with_subconditions(), Conditions(Conditions::te).with_subconditions()));
    rules.push(suffix_inflection("こうて", "かくて", Conditions(Conditions::te).with_subconditions(), Conditions(Conditions::te).with_subconditions()));
    rules.push(suffix_inflection("ごうて", "がくて", Conditions(Conditions::te).with_subconditions(), Conditions(Conditions::te).with_subconditions()));
    rules.push(suffix_inflection("そうて", "さくて", Conditions(Conditions::te).with_subconditions(), Conditions(Conditions::te).with_subconditions()));
    rules.push(suffix_inflection("とうて", "たくて", Conditions(Conditions::te).with_subconditions(), Conditions(Conditions::te).with_subconditions()));
    rules.push(suffix_inflection("のうて", "なくて", Conditions(Conditions::te).with_subconditions(), Conditions(Conditions::te).with_subconditions()));
    rules.push(suffix_inflection("ぼうて", "ばくて", Conditions(Conditions::te).with_subconditions(), Conditions(Conditions::te).with_subconditions()));
    rules.push(suffix_inflection("もうて", "まくて", Conditions(Conditions::te).with_subconditions(), Conditions(Conditions::te).with_subconditions()));
    rules.push(suffix_inflection("ろうて", "らくて", Conditions(Conditions::te).with_subconditions(), Conditions(Conditions::te).with_subconditions()));
    rules.push(suffix_inflection("ようて", "よくて", Conditions(Conditions::te).with_subconditions(), Conditions(Conditions::te).with_subconditions()));
    rules.push(suffix_inflection("しゅうて", "しくて", Conditions(Conditions::te).with_subconditions(), Conditions(Conditions::te).with_subconditions()));
    proof {
        reveal(rules_51);
        assert(rules_view(rules@) =~~= rules_51());
    }
    Transform { name: "kansai-ben", description: "-て form of kansai-ben adjectives\n", rules }
}

/// The rules of `kansai-ben`: ending, replacement, conditions in and out,
/// and endings rewritten first.
#[verifier::opaque]
pub open spec fn rules_52() -> Seq<RuleView> {
    seq![
        ("うない"@, "くない"@, subconditions_added(Conditions::adj_i), subconditions_added(Conditions::adj_i), Seq::<(Seq<char>, Seq<char>)>::empty()),
        ("こうない"@, "かくない"@, subconditions_added(Conditions::adj_i), subconditions_added(Conditions::adj_i), Seq::<(Seq<char>, Seq<char>)>::empty()),
        ("ごうない"@, "がくない"@, subconditions_added(Conditions::adj_i), subconditions_added(Conditions::adj_i), Seq::<(Seq<char>, Seq<char>)>::empty()),
        ("そうない"@, "さくない"@, subconditions_added(Conditions::adj_i), subconditions_added(Conditions::adj_i), Seq::<(Seq<char>, Seq<char>)>::empty()),
        ("とうない"@, "たくない"@, subconditions_added(Conditions::adj_i), subconditions_added(Conditions::adj_i), Seq::<(Seq<char>, Seq<char>)>::empty()),
        ("のうない"@, "なくない"@, subconditions_added(Conditions::adj_i), subconditions_added(Conditions::adj_i), Seq::<(Seq<char>, Seq<char>)>::empty()),
        ("ぼうない"@, "ばくない"@, subconditions_added(Conditions::adj_i), subconditions_added(Conditions::adj_i), Seq::<(Seq<char>, Seq<char>)>::empty()),
        ("もうない"@, "まくない"@, subconditions_added(Conditions::adj_i), subconditions_added(Conditions::adj_i), Seq::<(Seq<char>, Seq<char>)>::empty()),
        ("ろうない"@, "らくない"@, subconditions_added(Conditions::adj_i), subconditions_added(Conditions::adj_i), Seq::<(Seq<char>, Seq<char>)>::empty()),
        ("ようない"@, "よくない"@, subconditions_added(Conditions::adj_i), subconditions_added(Conditions::adj_i), Seq::<(Seq<char>, Seq<char>)>::empty()),
        ("しゅうない"@, "しくない"@, subconditions_added(Conditions::adj_i), subconditions_added(Conditions::adj_i), Seq::<(Seq<char>, Seq<char>)>::empty()),
    ]
}

#[verifier::rlimit(60)]
proof fn lemma_rules_52_ok()
    ensures
        forall|i: int| 0 <= i < rules_52().len() ==> #[trigger] rule_view_ok(rules_52()[i]),
        forall|i: int| 0 <= i < rules_52().len() ==> #[trigger] keeps_godan_rows(rules_52()[i]),
{
    reveal(rules_52);
    reveal_strlit("うない");
    lemma_utf8_size_bound("うない"@);
    reveal_strlit("くない");
    lemma_utf8_size_bound("くない"@);
    reveal_strlit("こうない");
    lemma_utf8_size_bound("こうない"@);
    reveal_strlit("かくない");
    lemma_utf8_size_bound("かくない"@);
    reveal_strlit("ごうない");
    lemma_utf8_size_bound("ごうない"@);
    reveal_strlit("がくない");
    lemma_utf8_size_bound("がくない"@);
    reveal_strlit("そうない");
    lemma_utf8_size_bound("そうない"@);
    reveal_strlit("さくない");
    lemma_utf8_size_bound("さくない"@);
    reveal_strlit("とうない");
    lemma_utf8_size_bound("とうない"@);
    reveal_strlit("たくない");
    lemma_utf8_size_bound("たくない"@);
    reveal_strlit("のうない");
    lemma_utf8_size_bound("のうない"@);
    reveal_strlit("なくない");
    lemma_utf8_size_bound("なくない"@);
    reveal_strlit("ぼうない");
    lemma_utf8_size_bound("ぼうない"@);
    reveal_strlit("ばくない");
    lemma_utf8_size_bound("ばくない"@);
    reveal_strlit("もうない");
    lemma_utf8_size_bound("もうない"@);
    reveal_strlit("まくない");
    lemma_utf8_size_bound("まくない"@);
    reveal_strlit("ろうない");
    lemma_utf8_size_bound("ろうない"@);
    reveal_strlit("らくない");
    lemma_utf8_size_bound("らくない"@);
    reveal_strlit("ようない");
    lemma_utf8_size_bound("ようない"@);
    reveal_strlit("よくない");
    lemma_utf8_size_bound("よくない"@);
    reveal_strlit("しゅうない");
    lemma_utf8_size_bound("しゅうない"@);
    reveal_strlit("しくない");
    lemma_utf8_size_bound("しくない"@);
}

fn transform_52() -> (r: Transform)
    ensures
        rules_view(r.rules@) == rules_52(),
{
    let mut rules: Vec<Inflection> = Vec::new();
    rules.push(suffix_inflection("うない", "くない", Conditions(Conditions::adj_i).with_subconditions(), Conditions(Conditions::adj_i).with_subconditions()));
    rules.push(suffix_inflection("こうない", "かくない", Conditions(Conditions::adj_i).with_subconditions(), Conditions(Conditions::adj_i).with_subconditions()));
    rules.push(suffix_inflection("ごうない", "がくない", Conditions(Conditions::adj_i).with_subconditions(), Conditions(Conditions::adj_i).with_subconditions()));
    rules.push(suffix_inflection("そうない", "さくない", Conditions(Conditions::adj_i).with_subconditions(), Conditions(Conditions::adj_i).with_subconditions()));
    rules.push(suffix_inflection("とうない", "たくない", Conditions(Conditions::adj_i).with_subconditions(), Conditions(Conditions::adj_i).with_subconditions()));
    rules.push(suffix_inflection("のうない", "なくない", Conditions(Conditions::adj_i).with_subconditions(), Conditions(Conditions::adj_i).with_subconditions()));
    rules.push(suffix_inflection("ぼうない", "ばくない", Conditions(Conditions::adj_i).with_subconditions(), Conditions(Conditions::adj_i).with_subconditions()));
    rules.push(suffix_inflection("もうない", "まくない", Conditions(Conditions::adj_i).with_subconditions(), Conditions(Conditions::adj_i).with_subconditions()));
    rules.push(suffix_inflection("ろうない", "らくない", Conditions(Conditions::adj_i).with_subconditions(), Conditions(Conditions::adj_i).with_subconditions()));
    rules.push(suffix_inflection("ようない", "よくない", Conditions(Conditions::adj_i).with_subconditions(), Conditions(Conditions::adj_i).with_subconditions()));
    rules.push(suffix_inflection("しゅうない", "しくない", Conditions(Conditions::adj_i).with_subconditions(), Conditions(Conditions::adj_i).with_subconditions()));
    proof {
        reveal(rules_52);
        assert(rules_view(rules@) =~~= rules_52());
    }
    Transform { name: "kansai-ben", description: "Negative form of kansai-ben adjectives\n", rules }
}

/// The rules of each Japanese transform, in the order they are tried.
pub open spec fn japanese_rules() -> Seq<Seq<RuleView>> {
    seq![rules_0(), rules_1(), rules_2(), rules_3(), rules_4(), rules_5(), rules_6(), rules_7(), rules_8(), rules_9(), rules_10(), rules_11(), rules_12(), rules_13(), rules_14(), rules_15(), rules_16(), rules_17(), rules_18(), rules_19(), rules_20(), rules_21(), rules_22(), rules_23(), rules_24(), rules_25(), rules_26(), rules_27(), rules_28(), rules_29(), rules_30(), rules_31(), rules_32(), rules_33(), rules_34(), rules_35(), rules_36(), rules_37(), rules_38(), rules_39(), rules_40(), rules_41(), rules_42(), rules_43(), rules_44(), rules_45(), rules_46(), rules_47(), rules_48(), rules_49(), rules_50(), rules_51(), rules_52()]
}

/// Every rule of the Japanese table is one the resolver takes.
pub proof fn lemma_japanese_rules_ok()
    ensures
        forall|tp: int, rp: int| 0 <= tp < japanese_rules().len() && 0 <= rp < japanese_rules()[tp].len()
            ==> #[trigger] rule_view_ok(japanese_rules()[tp][rp]),
{
    lemma_rules_0_ok();
    lemma_rules_1_ok();
    lemma_rules_2_ok();
    lemma_rules_3_ok();
    lemma_rules_4_ok();
    lemma_rules_5_ok();
    lemma_rules_6_ok();
    lemma_rules_7_ok();
    lemma_rules_8_ok();
    lemma_rules_9_ok();
    lemma_rules_10_ok();
    lemma_rules_11_ok();
    lemma_rules_12_ok();
    lemma_rules_13_ok();
    lemma_rules_14_ok();
    lemma_rules_15_ok();
    lemma_rules_16_ok();
    lemma_rules_17_ok();
    lemma_rules_18_ok();
    lemma_rules_19_ok();
    lemma_rules_20_ok();
    lemma_rules_21_ok();
    lemma_rules_22_ok();
    lemma_rules_23_ok();
    lemma_rules_24_ok();
    lemma_rules_25_ok();
    lemma_rules_26_ok();
    lemma_rules_27_ok();
    lemma_rules_28_ok();
    lemma_rules_29_ok();
    lemma_rules_30_ok();
    lemma_rules_31_ok();
    lemma_rules_32_ok();
    lemma_rules_33_ok();
    lemma_rules_34_ok();
    lemma_rules_35_ok();
    lemma_rules_36_ok();
    lemma_rules_37_ok();
    lemma_rules_38_ok();
    lemma_rules_39_ok();
    lemma_rules_40_ok();
    lemma_rules_41_ok();
    lemma_rules_42_ok();
    lemma_rules_43_ok();
    lemma_rules_44_ok();
    lemma_rules_45_ok();
    lemma_rules_46_ok();
    lemma_rules_47_ok();
    lemma_rules_48_ok();
    lemma_rules_49_ok();
    lemma_rules_50_ok();
    lemma_rules_51_ok();
    lemma_rules_52_ok();
    assert forall|tp: int, rp: int| 0 <= tp < japanese_rules().len() && 0 <= rp < japanese_rules()[tp].len()
        implies #[trigger] rule_view_ok(japanese_rules()[tp][rp]) by {
        if tp == 0 {
            assert(japanese_rules()[tp] == rules_0());
        } else if tp == 1 {
            assert(japanese_rules()[tp] == rules_1());
        } else if tp == 2 {
            assert(japanese_rules()[tp] == rules_2());
        } else if tp == 3 {
            assert(japanese_rules()[tp] == rules_3());
        } else if tp == 4 {
            assert(japanese_rules()[tp] == rules_4());
        } else if tp == 5 {
            assert(japanese_rules()[tp] == rules_5());
        } else if tp == 6 {
            assert(japanese_rules()[tp] == rules_6());
        } else if tp == 7 {
            assert(japanese_rules()[tp] == rules_7());
        } else if tp == 8 {
            assert(japanese_rules()[tp] == rules_8());
        } else if tp == 9 {
            assert(japanese_rules()[tp] == rules_9());
        } else if tp == 10 {
            assert(japanese_rules()[tp] == rules_10());
        } else if tp == 11 {
            assert(japanese_rules()[tp] == rules_11());
        } else if tp == 12 {
            assert(japanese_rules()[tp] == rules_12());
        } else if tp == 13 {
            assert(japanese_rules()[tp] == rules_13());
        } else if tp == 14 {
            assert(japanese_rules()[tp] == rules_14());
        } else if tp == 15 {
            assert(japanese_rules()[tp] == rules_15());
        } else if tp == 16 {
            assert(japanese_rules()[tp] == rules_16());
        } else if tp == 17 {
            assert(japanese_rules()[tp] == rules_17());
        } else if tp == 18 {
            assert(japanese_rules()[tp] == rules_18());
        } else if tp == 19 {
            assert(japanese_rules()[tp] == rules_19());
        } else if tp == 20 {
            assert(japanese_rules()[tp] == rules_20());
        } else if tp == 21 {
            assert(japanese_rules()[tp] == rules_21());
        } else if tp == 22 {
            assert(japanese_rules()[tp] == rules_22());
        } else if tp == 23 {
            assert(japanese_rules()[tp] == rules_23());
        } else if tp == 24 {
            assert(japanese_rules()[tp] == rules_24());
        } else if tp == 25 {
            assert(japanese_rules()[tp] == rules_25());
        } else if tp == 26 {
            assert(japanese_rules()[tp] == rules_26());
        } else if tp == 27 {
            assert(japanese_rules()[tp] == rules_27());
        } else if tp == 28 {
            assert(japanese_rules()[tp] == rules_28());
        } else if tp == 29 {
            assert(japanese_rules()[tp] == rules_29());
        } else if tp == 30 {
            assert(japanese_rules()[tp] == rules_30());
        } else if tp == 31 {
            assert(japanese_rules()[tp] == rules_31());
        } else if tp == 32 {
            assert(japanese_rules()[tp] == rules_32());
        } else if tp == 33 {
            assert(japanese_rules()[tp] == rules_33());
        } else if tp == 34 {
            assert(japanese_rules()[tp] == rules_34());
        } else if tp == 35 {
            assert(japanese_rules()[tp] == rules_35());
        } else if tp == 36 {
            assert(japanese_rules()[tp] == rules_36());
        } else if tp == 37 {
            assert(japanese_rules()[tp] == rules_37());
        } else if tp == 38 {
            assert(japanese_rules()[tp] == rules_38());
        } else if tp == 39 {
            assert(japanese_rules()[tp] == rules_39());
        } else if tp == 40 {
            assert(japanese_rules()[tp] == rules_40());
        } else if tp == 41 {
            assert(japanese_rules()[tp] == rules_41());
        } else if tp == 42 {
            assert(japanese_rules()[tp] == rules_42());
        } else if tp == 43 {
            assert(japanese_rules()[tp] == rules_43());
        } else if tp == 44 {
            assert(japanese_rules()[tp] == rules_44());
        } else if tp == 45 {
            assert(japanese_rules()[tp] == rules_45());
        } else if tp == 46 {
            assert(japanese_rules()[tp] == rules_46());
        } else if tp == 47 {
            assert(japanese_rules()[tp] == rules_47());
        } else if tp == 48 {
            assert(japanese_rules()[tp] == rules_48());
        } else if tp == 49 {
            assert(japanese_rules()[tp] == rules_49());
        } else if tp == 50 {
            assert(japanese_rules()[tp] == rules_50());
        } else if tp == 51 {
            assert(japanese_rules()[tp] == rules_51());
        } else if tp == 52 {
            assert(japanese_rules()[tp] == rules_52());
        }
    }
}

/// The godan rules of the table follow the kana chart. Every rule of
/// `-ば`, the first transform, that undoes the hypothetical form of a godan
/// row (an え-column kana and ば) into a single kana gives back the
/// dictionary-form kana of that same row, so 読めば becomes 読む. Across the
/// whole table, leaving aside る (shared with ichidan verbs) and the
/// euphonic い and う, a rule undoing an え-column kana and ば into a godan
/// dictionary-form kana gives back the one of that row, and a rule giving
/// back a godan dictionary-form kana from an ending that starts with a kana
/// of the chart stays in that kana's row.
pub proof fn lemma_japanese_godan_rows()
    ensures
        forall|rp: int| 0 <= rp < japanese_rules()[0].len() ==> ({
            let r = #[trigger] japanese_rules()[0][rp];
            r.0.len() == 2 && r.0[1] == 'ば' && e_column(r.0[0]) && r.1.len() == 1
                ==> r.1 == seq![row_u_kana(godan_row(r.0[0]))]
        }),
        forall|tp: int, rp: int| 0 <= tp < japanese_rules().len() && 0 <= rp < japanese_rules()[tp].len()
            ==> #[trigger] keeps_godan_rows(japanese_rules()[tp][rp]),
{
    lemma_rules_0_ok();
    lemma_rules_1_ok();
    lemma_rules_2_ok();
    lemma_rules_3_ok();
    lemma_rules_4_ok();
    lemma_rules_5_ok();
    lemma_rules_6_ok();
    lemma_rules_7_ok();
    lemma_rules_8_ok();
    lemma_rules_9_ok();
    lemma_rules_10_ok();
    lemma_rules_11_ok();
    lemma_rules_12_ok();
    lemma_rules_13_ok();
    lemma_rules_14_ok();
    lemma_rules_15_ok();
    lemma_rules_16_ok();
    lemma_rules_17_ok();
    lemma_rules_18_ok();
    lemma_rules_19_ok();
    lemma_rules_20_ok();
    lemma_rules_21_ok();
    lemma_rules_22_ok();
    lemma_rules_23_ok();
    lemma_rules_24_ok();
    lemma_rules_25_ok();
    lemma_rules_26_ok();
    lemma_rules_27_ok();
    lemma_rules_28_ok();
    lemma_rules_29_ok();
    lemma_rules_30_ok();
    lemma_rules_31_ok();
    lemma_rules_32_ok();
    lemma_rules_33_ok();
    lemma_rules_34_ok();
    lemma_rules_35_ok();
    lemma_rules_36_ok();
    lemma_rules_37_ok();
    lemma_rules_38_ok();
    lemma_rules_39_ok();
    lemma_rules_40_ok();
    lemma_rules_41_ok();
    lemma_rules_42_ok();
    lemma_rules_43_ok();
    lemma_rules_44_ok();
    lemma_rules_45_ok();
    lemma_rules_46_ok();
    lemma_rules_47_ok();
    lemma_rules_48_ok();
    lemma_rules_49_ok();
    lemma_rules_50_ok();
    lemma_rules_51_ok();
    lemma_rules_52_ok();
    assert forall|rp: int| 0 <= rp < japanese_rules()[0].len() implies ({
        let r = #[trigger] japanese_rules()[0][rp];
        r.0.len() == 2 && r.0[1] == 'ば' && e_column(r.0[0]) && r.1.len() == 1
            ==> r.1 == seq![row_u_kana(godan_row(r.0[0]))]
    }) by {
        assert(japanese_rules()[0] == rules_0());
        let r = rules_0()[rp];
        assert(undoes_hypothetical_row(r));
        if r.1.len() == 1 {
            assert(r.1 =~= seq![r.1[0]]);
        }
    }
    assert forall|tp: int, rp: int| 0 <= tp < japanese_rules().len() && 0 <= rp < japanese_rules()[tp].len()
        implies #[trigger] keeps_godan_rows(japanese_rules()[tp][rp]) by {
        if tp == 0 {
            assert(japanese_rules()[tp] == rules_0());
        } else if tp == 1 {
            assert(japanese_rules()[tp] == rules_1());
        } else if tp == 2 {
            assert(japanese_rules()[tp] == rules_2());
        } else if tp == 3 {
            assert(japanese_rules()[tp] == rules_3());
        } else if tp == 4 {
            assert(japanese_rules()[tp] == rules_4());
        } else if tp == 5 {
            assert(japanese_rules()[tp] == rules_5());
        } else if tp == 6 {
            assert(japanese_rules()[tp] == rules_6());
        } else if tp == 7 {
            assert(japanese_rules()[tp] == rules_7());
        } else if tp == 8 {
            assert(japanese_rules()[tp] == rules_8());
        } else if tp == 9 {
            assert(japanese_rules()[tp] == rules_9());
        } else if tp == 10 {
            assert(japanese_rules()[tp] == rules_10());
        } else if tp == 11 {
            assert(japanese_rules()[tp] == rules_11());
        } else if tp == 12 {
            assert(japanese_rules()[tp] == rules_12());
        } else if tp == 13 {
            assert(japanese_rules()[tp] == rules_13());
        } else if tp == 14 {
            assert(japanese_rules()[tp] == rules_14());
        } else if tp == 15 {
            assert(japanese_rules()[tp] == rules_15());
        } else if tp == 16 {
            assert(japanese_rules()[tp] == rules_16());
        } else if tp == 17 {
            assert(japanese_rules()[tp] == rules_17());
        } else if tp == 18 {
            assert(japanese_rules()[tp] == rules_18());
        } else if tp == 19 {
            assert(japanese_rules()[tp] == rules_19());
        } else if tp == 20 {
            assert(japanese_rules()[tp] == rules_20());
        } else if tp == 21 {
            assert(japanese_rules()[tp] == rules_21());
        } else if tp == 22 {
            assert(japanese_rules()[tp] == rules_22());
        } else if tp == 23 {
            assert(japanese_rules()[tp] == rules_23());
        } else if tp == 24 {
            assert(japanese_rules()[tp] == rules_24());
        } else if tp == 25 {
            assert(japanese_rules()[tp] == rules_25());
        } else if tp == 26 {
            assert(japanese_rules()[tp] == rules_26());
        } else if tp == 27 {
            assert(japanese_rules()[tp] == rules_27());
        } else if tp == 28 {
            assert(japanese_rules()[tp] == rules_28());
        } else if tp == 29 {
            assert(japanese_rules()[tp] == rules_29());
        } else if tp == 30 {
            assert(japanese_rules()[tp] == rules_30());
        } else if tp == 31 {
            assert(japanese_rules()[tp] == rules_31());
        } else if tp == 32 {
            assert(japanese_rules()[tp] == rules_32());
        } else if tp == 33 {
            assert(japanese_rules()[tp] == rules_33());
        } else if tp == 34 {
            assert(japanese_rules()[tp] == rules_34());
        } else if tp == 35 {
            assert(japanese_rules()[tp] == rules_35());
        } else if tp == 36 {
            assert(japanese_rules()[tp] == rules_36());
        } else if tp == 37 {
            assert(japanese_rules()[tp] == rules_37());
        } else if tp == 38 {
            assert(japanese_rules()[tp] == rules_38());
        } else if tp == 39 {
            assert(japanese_rules()[tp] == rules_39());
        } else if tp == 40 {
            assert(japanese_rules()[tp] == rules_40());
        } else if tp == 41 {
            assert(japanese_rules()[tp] == rules_41());
        } else if tp == 42 {
            assert(japanese_rules()[tp] == rules_42());
        } else if tp == 43 {
            assert(japanese_rules()[tp] == rules_43());
        } else if tp == 44 {
            assert(japanese_rules()[tp] == rules_44());
        } else if tp == 45 {
            assert(japanese_rules()[tp] == rules_45());
        } else if tp == 46 {
            assert(japanese_rules()[tp] == rules_46());
        } else if tp == 47 {
            assert(japanese_rules()[tp] == rules_47());
        } else if tp == 48 {
            assert(japanese_rules()[tp] == rules_48());
        } else if tp == 49 {
            assert(japanese_rules()[tp] == rules_49());
        } else if tp == 50 {
            assert(japanese_rules()[tp] == rules_50());
        } else if tp == 51 {
            assert(japanese_rules()[tp] == rules_51());
        } else if tp == 52 {
            assert(japanese_rules()[tp] == rules_52());
        }
    }
}

/// The Japanese inflection rules, in the order they are tried.
#[allow(non_snake_case)]
pub fn JAPANESE_TRANSFORMS() -> (r: Vec<Transform>)
    ensures
        r@.map_values(|t: Transform| rules_view(t.rules@)) == japanese_rules(),
{
    let mut transforms: Vec<Transform> = Vec::new();
    transforms.push(transform_0());
    transforms.push(transform_1());
    transforms.push(transform_2());
    transforms.push(transform_3());
    transforms.push(transform_4());
    transforms.push(transform_5());
    transforms.push(transform_6());
    transforms.push(transform_7());
    transforms.push(transform_8());
    transforms.push(transform_9());
    transforms.push(transform_10());
    transforms.push(transform_11());
    transforms.push(transform_12());
    transforms.push(transform_13());
    transforms.push(transform_14());
    transforms.push(transform_15());
    transforms.push(transform_16());
    transforms.push(transform_17());
    transforms.push(transform_18());
    transforms.push(transform_19());
    transforms.push(transform_20());
    transforms.push(transform_21());
    transforms.push(transform_22());
    transforms.push(transform_23());
    transforms.push(transform_24());
    transforms.push(transform_25());
    transforms.push(transform_26());
    transforms.push(transform_27());
    transforms.push(transform_28());
    transforms.push(transform_29());
    transforms.push(transform_30());
    transforms.push(transform_31());
    transforms.push(transform_32());
    transforms.push(transform_33());
    transforms.push(transform_34());
    transforms.push(transform_35());
    transforms.push(transform_36());
    transforms.push(transform_37());
    transforms.push(transform_38());
    transforms.push(transform_39());
    transforms.push(transform_40());
    transforms.push(transform_41());
    transforms.push(transform_42());
    transforms.push(transform_43());
    transforms.push(transform_44());
    transforms.push(transform_45());
    transforms.push(transform_46());
    transforms.push(transform_47());
    transforms.push(transform_48());
    transforms.push(transform_49());
    transforms.push(transform_50());
    transforms.push(transform_51());
    transforms.push(transform_52());
    proof {
        assert(transforms@.map_values(|t: Transform| rules_view(t.rules@)) =~= japanese_rules());
    }
    transforms
}

} // verus!
