//! Subject classification: an ordered table of patterns picks the
//! category glyph for a commit subject. The first matching pattern
//! wins, and a catch-all pattern ends the table so that every subject
//! gets a glyph.

use vstd::prelude::*;

verus! {

use crate::strutil::str_to_owned;

/// An outside compiled pattern of the `regex` crate.
#[verifier::external_type_specification]
#[verifier::external_body]
pub struct ExRegex(regex::Regex);

/// The pattern a `regex::Regex` was compiled from: a compiled value
/// determines it.
pub uninterp spec fn re_pattern(re: &regex::Regex) -> Seq<char>;

/// Whether `regex::Regex::new` accepts a pattern: a function of the
/// pattern alone.
pub uninterp spec fn regex_valid(pattern: Seq<char>) -> bool;

/// What `regex::Regex::is_match` answers: a function of the compiled
/// pattern and the text alone.
pub uninterp spec fn regex_match(pattern: Seq<char>, text: Seq<char>) -> bool;

/// Relies on `regex::Regex::new`: compiles `pat`; whether it compiles,
/// and to what, depends on `pat` alone.
#[verifier::external_body]
fn regex_new(pat: &str) -> (r: Option<regex::Regex>)
    ensures
        r is Some <==> regex_valid(pat@),
        r matches Some(re) ==> re_pattern(&re) == pat@,
{
    regex::Regex::new(pat).ok()
}

/// Relies on `regex::Regex::is_match`: whether the text matches the
/// compiled pattern.
#[verifier::external_body]
fn regex_is_match(re: &regex::Regex, text: &str) -> (r: bool)
    ensures
        r == regex_match(re_pattern(re), text@),
{
    re.is_match(text)
}

/// The pattern and glyph of each rule of a table, in order.
pub open spec fn rules_of(s: Seq<(regex::Regex, String)>) -> Seq<(Seq<char>, Seq<char>)> {
    s.map_values(|p: (regex::Regex, String)| (re_pattern(&p.0), p.1@))
}

/// The one table entry a pattern contributes: itself where it
/// compiles, nothing where the pattern is rejected.
pub open spec fn table_entry(pattern: Seq<char>, glyph: Seq<char>) -> Seq<(Seq<char>, Seq<char>)> {
    if regex_valid(pattern) {
        seq![(pattern, glyph)]
    } else {
        Seq::empty()
    }
}

/// The glyph of the first rule whose pattern matches the subject, or
/// a single space where none does.
pub open spec fn spec_classify(rules: Seq<(Seq<char>, Seq<char>)>, subject: Seq<char>) -> Seq<char>
    decreases rules.len(),
{
    if rules.len() == 0 {
        seq![' ']
    } else if regex_match(rules[0].0, subject) {
        rules[0].1
    } else {
        spec_classify(rules.skip(1), subject)
    }
}

/// Compiles `pat` and appends the rule to the table; a rejected
/// pattern contributes nothing.
fn add_rule(rules: &mut Vec<(regex::Regex, String)>, pat: &str, glyph: &str)
    ensures
        rules_of(final(rules)@) == rules_of(old(rules)@) + table_entry(pat@, glyph@),
{
    let ghost before = rules@;
    match regex_new(pat) {
        Some(re) => {
            rules.push((re, str_to_owned(glyph)));
            proof {
                assert(rules_of(rules@) =~= rules_of(before) + table_entry(pat@, glyph@));
            }
        },
        None => {
            proof {
                assert(rules_of(rules@) =~= rules_of(before) + table_entry(pat@, glyph@));
            }
        },
    }
}

/// The fixed classification table: each pattern in evaluation order
/// with its glyph, kept only where the pattern compiles.
pub open spec fn spec_icon_table() -> Seq<(Seq<char>, Seq<char>)> {
    table_entry("(?i)^Revert:?\\s*"@, "\u{f0e2} "@) + table_entry(
        "(?i)^archive:?\\s*"@,
        "\u{f53b} "@,
    ) + table_entry("(?i)^issue:?\\s*"@, "\u{f145} "@) + table_entry(
        "(?i)^BREAKING CHANGE:?\\s*"@,
        "\u{26a0} "@,
    ) + table_entry("(?i)^fixup!\\s+"@, "\u{f0e3} "@) + table_entry(
        "(?i)^ADD:\\s?[a-z0-9]+"@,
        "\u{f41b} "@,
    ) + table_entry("(?i)^ref(actor)?:?\\s*"@, "\u{21ba} "@) + table_entry(
        "(?i)^lang:?\\s*"@,
        "\u{fac9}"@,
    ) + table_entry("(?i)^deps(\\(.+\\))?:?\\s*"@, "\u{f487} "@) + table_entry(
        "(?i)^config:?\\s*"@,
        "\u{f462} "@,
    ) + table_entry("(?i)^test(\\(.+\\))?:?\\s*"@, "\u{f45e} "@) + table_entry(
        "(?i)^ci(\\(.+\\))?:?\\s*"@,
        "\u{f085} "@,
    ) + table_entry("(?i)^perf(\\(.+\\))?:?\\s*"@, "\u{f9c4}"@) + table_entry(
        "(?i)^(bug)?fix(ing|ed)?(\\(.+\\))?[/:\\s]+"@,
        "\u{f188} "@,
    ) + table_entry("(?i)^doc(s|umentation)?:?\\s*"@, "\u{270e} "@) + table_entry(
        "(?i)^improve(ment)?:?\\s*"@,
        "\u{e370} "@,
    ) + table_entry("(?i)^CHANGE/?:?\\s*"@, "\u{e370} "@) + table_entry(
        "(?i)^hotfix:?\\s*"@,
        "\u{f490} "@,
    ) + table_entry("(?i)^feat:?\\s*"@, "\u{2795}"@) + table_entry(
        "(?i)^add:?\\s*"@,
        "\u{2795}"@,
    ) + table_entry("(?i)^(release|bump):?\\s*"@, "\u{f412} "@) + table_entry(
        "(?i)^build:?\\s*"@,
        "\u{1f528}"@,
    ) + table_entry("(?i).*\\bchangelog\\b.*"@, "\u{270e} "@) + table_entry(
        "(?i)^refactor:?\\s*"@,
        "\u{21ba} "@,
    ) + table_entry("(?i)^.* Import .*"@, "\u{2b88} "@) + table_entry(
        "(?i)^Split .*"@,
        "\u{f403} "@,
    ) + table_entry("(?i)^Remove:?\\s+.*"@, "\u{f48e} "@) + table_entry(
        "(?i)^Update :\\w+.*"@,
        "\u{f419} "@,
    ) + table_entry("(?i)^style:?\\s*"@, "\u{2665} "@) + table_entry(
        "(?i)^DONE:?\\s?[a-z0-9]+"@,
        "\u{f41d} "@,
    ) + table_entry("(?i)^rename?\\s*"@, "\u{f044} "@) + table_entry("(?i).*"@, "  "@)
}

/// The ordered pattern table that classifies commit subjects.
///
/// Built once and passed explicitly to the call sites that need it:
/// the library keeps no hidden global state.
pub struct IconClassifier {
    pub rules: Vec<(regex::Regex, String)>,
}

impl IconClassifier {
    /// The pattern and glyph of each rule, in table order.
    pub open spec fn rules_view(&self) -> Seq<(Seq<char>, Seq<char>)> {
        rules_of(self.rules@)
    }

    /// Compiles the fixed classification table.
    pub fn new() -> (r: IconClassifier)
        ensures
            r.rules_view() == spec_icon_table(),
    {
        let mut rules: Vec<(regex::Regex, String)> = Vec::new();
        proof {
            assert(rules_of(rules@) =~= Seq::<(Seq<char>, Seq<char>)>::empty());
        }
        add_rule(&mut rules, "(?i)^Revert:?\\s*", "\u{f0e2} ");
        proof {
            assert(Seq::<(Seq<char>, Seq<char>)>::empty() + table_entry(
                "(?i)^Revert:?\\s*"@,
                "\u{f0e2} "@,
            ) =~= table_entry("(?i)^Revert:?\\s*"@, "\u{f0e2} "@));
        }
        add_rule(&mut rules, "(?i)^archive:?\\s*", "\u{f53b} ");
        add_rule(&mut rules, "(?i)^issue:?\\s*", "\u{f145} ");
        add_rule(&mut rules, "(?i)^BREAKING CHANGE:?\\s*", "\u{26a0} ");
        add_rule(&mut rules, "(?i)^fixup!\\s+", "\u{f0e3} ");
        add_rule(&mut rules, "(?i)^ADD:\\s?[a-z0-9]+", "\u{f41b} ");
        add_rule(&mut rules, "(?i)^ref(actor)?:?\\s*", "\u{21ba} ");
        add_rule(&mut rules, "(?i)^lang:?\\s*", "\u{fac9}");
        add_rule(&mut rules, "(?i)^deps(\\(.+\\))?:?\\s*", "\u{f487} ");
        add_rule(&mut rules, "(?i)^config:?\\s*", "\u{f462} ");
        add_rule(&mut rules, "(?i)^test(\\(.+\\))?:?\\s*", "\u{f45e} ");
        add_rule(&mut rules, "(?i)^ci(\\(.+\\))?:?\\s*", "\u{f085} ");
        add_rule(&mut rules, "(?i)^perf(\\(.+\\))?:?\\s*", "\u{f9c4}");
        add_rule(&mut rules, "(?i)^(bug)?fix(ing|ed)?(\\(.+\\))?[/:\\s]+", "\u{f188} ");
        add_rule(&mut rules, "(?i)^doc(s|umentation)?:?\\s*", "\u{270e} ");
        add_rule(&mut rules, "(?i)^improve(ment)?:?\\s*", "\u{e370} ");
        add_rule(&mut rules, "(?i)^CHANGE/?:?\\s*", "\u{e370} ");
        add_rule(&mut rules, "(?i)^hotfix:?\\s*", "\u{f490} ");
        add_rule(&mut rules, "(?i)^feat:?\\s*", "\u{2795}");
        add_rule(&mut rules, "(?i)^add:?\\s*", "\u{2795}");
        add_rule(&mut rules, "(?i)^(release|bump):?\\s*", "\u{f412} ");
        add_rule(&mut rules, "(?i)^build:?\\s*", "\u{1f528}");
        add_rule(&mut rules, "(?i).*\\bchangelog\\b.*", "\u{270e} ");
        add_rule(&mut rules, "(?i)^refactor:?\\s*", "\u{21ba} ");
        add_rule(&mut rules, "(?i)^.* Import .*", "\u{2b88} ");
        add_rule(&mut rules, "(?i)^Split .*", "\u{f403} ");
        add_rule(&mut rules, "(?i)^Remove:?\\s+.*", "\u{f48e} ");
        add_rule(&mut rules, "(?i)^Update :\\w+.*", "\u{f419} ");
        add_rule(&mut rules, "(?i)^style:?\\s*", "\u{2665} ");
        add_rule(&mut rules, "(?i)^DONE:?\\s?[a-z0-9]+", "\u{f41d} ");
        add_rule(&mut rules, "(?i)^rename?\\s*", "\u{f044} ");
        add_rule(&mut rules, "(?i).*", "  ");
        IconClassifier { rules }
    }

    /// The glyph of the first rule whose pattern matches the subject,
    /// or a single space where none does.
    pub fn classify(&self, subject: &str) -> (r: String)
        ensures
            r@ == spec_classify(self.rules_view(), subject@),
    {
        let mut i: usize = 0;
        proof {
            assert(self.rules_view().skip(0) =~= self.rules_view());
        }
        while i < self.rules.len()
            invariant
                i <= self.rules@.len(),
                self.rules_view().len() == self.rules@.len(),
                spec_classify(self.rules_view(), subject@) == spec_classify(
                    self.rules_view().skip(i as int),
                    subject@,
                ),
            decreases self.rules@.len() - i,
        {
            let ghost suffix = self.rules_view().skip(i as int);
            proof {
                assert(suffix[0] == self.rules_view()[i as int]);
                assert(suffix.skip(1) =~= self.rules_view().skip(i + 1));
            }
            if regex_is_match(&self.rules[i].0, subject) {
                return str_to_owned(self.rules[i].1.as_str());
            }
            i += 1;
        }
        proof {
            assert(self.rules_view().skip(self.rules@.len() as int) =~= Seq::<(
                Seq<char>,
                Seq<char>,
            )>::empty());
        }
        let r = str_to_owned(" ");
        proof {
            reveal_strlit(" ");
            assert(" "@ =~= seq![' ']);
        }
        r
    }
}

} // verus!
