//! The dependency scan: which rules the stored configuration files imply.
//!
//! Each `file` action may carry checks. A check that holds of the file, and
//! whose rule the app describes, adds the rule to the matched rules. A rule is
//! reported once however many checks and files matched it.

use vstd::prelude::*;
use crate::domain::{checks_view, dependencies_view, App, CheckView, Dependency, DependencyCheck, DependencyView};
use crate::deps_context::TargetDirectoryContext;
use crate::error::VacuumError;
use crate::path::{joined, path_of, Location};
use crate::text::{chars_of, same_text};

verus! {

/// `needle` occurs in `text` as a contiguous run of characters.
pub open spec fn occurs(text: Seq<char>, needle: Seq<char>) -> bool {
    exists|i: int| occurs_at(text, needle, i)
}

/// `needle` stands in `text` at index `i`.
pub open spec fn occurs_at(text: Seq<char>, needle: Seq<char>, i: int) -> bool {
    0 <= i && i + needle.len() <= text.len() && text.subrange(i, i + needle.len()) == needle
}

/// What is known of the file that a check is about: whether it is there, and
/// its text where it was read.
pub struct FileFacts {
    pub exists: bool,
    pub contents: Option<Seq<char>>,
}

/// The rule that a check names.
pub open spec fn rule_of(check: CheckView) -> Seq<char> {
    match check {
        CheckView::Exists(rule) => rule,
        CheckView::Contains(_, rule) => rule,
    }
}

/// Whether the check holds of the file.
pub open spec fn holds(check: CheckView, file: FileFacts) -> bool {
    match check {
        CheckView::Exists(_) => file.exists,
        CheckView::Contains(text, _) => file.exists && (file.contents matches Some(c) && occurs(c, text)),
    }
}

/// Whether the app describes a rule of this name.
pub open spec fn known(rules: Seq<DependencyView>, rule: Seq<char>) -> bool {
    exists|i: int| 0 <= i < rules.len() && #[trigger] rules[i].name == rule
}

/// The text filed under `rule`: that of the last rule of this name.
pub open spec fn block_of(rules: Seq<DependencyView>, rule: Seq<char>) -> Seq<char>
    decreases rules.len(),
{
    if rules.len() == 0 {
        Seq::empty()
    } else if rules.last().name == rule {
        rules.last().block
    } else {
        block_of(rules.drop_last(), rule)
    }
}

/// `rule` added to the matched rules, unless it is among them already.
pub open spec fn noted(matched: Seq<Seq<char>>, rule: Seq<char>) -> Seq<Seq<char>> {
    if matched.contains(rule) {
        matched
    } else {
        matched.push(rule)
    }
}

/// The matched rules after one check.
pub open spec fn after_check(matched: Seq<Seq<char>>, rules: Seq<DependencyView>, file: FileFacts, check: CheckView) -> Seq<Seq<char>> {
    if holds(check, file) && known(rules, rule_of(check)) {
        noted(matched, rule_of(check))
    } else {
        matched
    }
}

/// The matched rules after the first `n` checks of one file, taken in order.
pub open spec fn after_checks(matched: Seq<Seq<char>>, rules: Seq<DependencyView>, file: FileFacts, checks: Seq<CheckView>, n: int) -> Seq<Seq<char>>
    decreases n,
{
    if n <= 0 || n > checks.len() {
        matched
    } else {
        after_check(after_checks(matched, rules, file, checks, n - 1), rules, file, checks[n - 1])
    }
}

/// The rules of an app; none where it has no dependencies section.
pub open spec fn rules_of(app: App) -> Seq<DependencyView> {
    match app.dependencies {
        Some(list) => dependencies_view(list@),
        None => Seq::empty(),
    }
}

/// Whether `needle` occurs in `text`.
pub fn contains_text(text: &[char], needle: &[char]) -> (r: bool)
    ensures
        r == occurs(text@, needle@),
{
    if needle.len() > text.len() {
        assert forall|i: int| !occurs_at(text@, needle@, i) by {}
        return false;
    }
    let last = text.len() - needle.len();
    let mut i: usize = 0;
    while i <= last
        invariant
            i <= last + 1,
            last == text@.len() - needle@.len(),
            text@.len() <= usize::MAX,
            forall|k: int| 0 <= k < i ==> !occurs_at(text@, needle@, k),
        decreases last + 1 - i,
    {
        let mut j: usize = 0;
        while j < needle.len() && text[i + j] == needle[j]
            invariant
                j <= needle@.len(),
                i <= last,
                last == text@.len() - needle@.len(),
                text@.len() <= usize::MAX,
                forall|k: int| 0 <= k < j ==> text@[i + k] == needle@[k],
            decreases needle@.len() - j,
        {
            j += 1;
        }
        if j == needle.len() {
            assert(text@.subrange(i as int, i + needle@.len()) =~= needle@);
            assert(occurs_at(text@, needle@, i as int));
            return true;
        }
        assert(!occurs_at(text@, needle@, i as int)) by {
            if occurs_at(text@, needle@, i as int) {
                assert(text@.subrange(i as int, i + needle@.len())[j as int] == needle@[j as int]);
            }
        }
        i += 1;
    }
    assert forall|k: int| !occurs_at(text@, needle@, k) by {}
    false
}

/// Collects, over the files of one app, the rules that its checks match.
pub struct DependencyAnalyzer<'a> {
    app: &'a App,
    matched: Vec<String>,
}

impl<'a> DependencyAnalyzer<'a> {
    /// The app that is scanned.
    pub closed spec fn app(&self) -> App {
        *self.app
    }

    /// The names of the rules matched so far, in the order of their first match.
    pub closed spec fn matched(&self) -> Seq<Seq<char>> {
        Seq::new(self.matched@.len(), |i: int| self.matched@[i]@)
    }

    /// No rule is held twice.
    pub open spec fn distinct(&self) -> bool {
        self.matched().no_duplicates()
    }

    /// A scan of `app` that has matched nothing yet.
    pub fn new(app: &'a App) -> (r: Self)
        ensures
            r.app() == *app,
            r.matched() == Seq::<Seq<char>>::empty(),
            r.distinct(),
    {
        let r = DependencyAnalyzer { app, matched: Vec::new() };
        assert(r.matched() =~= Seq::empty());
        r
    }

    /// The file that a `file` action is about: `file_name`, one level
    /// below the place of the context.
    pub fn handle_file(&self, ctx: &TargetDirectoryContext, file_name: &str) -> (file: Location)
        ensures
            file@ == joined(ctx@, path_of(file_name@)),
    {
        ctx.target.sub(file_name)
    }

    /// A `files` action means nothing to the scan.
    pub fn handle_files(&self, ctx: &TargetDirectoryContext, pattern: &str) -> (r: Result<(), VacuumError>)
        ensures
            r == Ok::<(), VacuumError>(()),
    {
        Ok(())
    }

    /// An `exec` action means nothing to the scan: no command is run.
    pub fn handle_execute(&self, ctx: &TargetDirectoryContext, command: &str, file_name: &Option<String>) -> (r: Result<(), VacuumError>)
        ensures
            r == Ok::<(), VacuumError>(()),
    {
        Ok(())
    }

    /// Whether the app describes a rule of this name.
    pub fn is_known(&self, rule: &str) -> (r: bool)
        ensures
            r == known(rules_of(self.app()), rule@),
    {
        match &self.app.dependencies {
            None => false,
            Some(list) => {
                let mut i: usize = 0;
                while i < list.len()
                    invariant
                        i <= list@.len(),
                        rules_of(self.app()) == dependencies_view(list@),
                        forall|k: int| 0 <= k < i ==> (#[trigger] dependencies_view(list@)[k]).name != rule@,
                    decreases list@.len() - i,
                {
                    if same_text(list[i].name.as_str(), rule) {
                        assert(dependencies_view(list@)[i as int].name == rule@);
                        return true;
                    }
                    i += 1;
                }
                false
            },
        }
    }

    /// Whether the rule is among those matched so far.
    pub fn has_matched(&self, rule: &str) -> (r: bool)
        ensures
            r == self.matched().contains(rule@),
    {
        let mut i: usize = 0;
        while i < self.matched.len()
            invariant
                i <= self.matched@.len(),
                forall|k: int| 0 <= k < i ==> #[trigger] self.matched()[k] != rule@,
            decreases self.matched@.len() - i,
        {
            if same_text(self.matched[i].as_str(), rule) {
                assert(self.matched()[i as int] == rule@);
                return true;
            }
            i += 1;
        }
        false
    }

    /// Whether any of the checks needs the text of the file.
    pub fn needs_contents(checks: &Vec<DependencyCheck>) -> (r: bool)
        ensures
            r == exists|i: int| 0 <= i < checks@.len() && #[trigger] checks_view(checks@)[i] is Contains,
    {
        let mut i: usize = 0;
        while i < checks.len()
            invariant
                i <= checks@.len(),
                forall|k: int| 0 <= k < i ==> !(#[trigger] checks_view(checks@)[k] is Contains),
            decreases checks@.len() - i,
        {
            match &checks[i] {
                DependencyCheck::Contains(_, _) => {
                    assert(checks_view(checks@)[i as int] is Contains);
                    return true;
                },
                DependencyCheck::Exists(_) => {},
            }
            i += 1;
        }
        false
    }

    /// Evaluates the checks of one file, in order, and adds the rules they
    /// match. `exists` says whether the file is there, `contents` holds its
    /// text where it was read.
    pub fn analyze(&mut self, exists: bool, contents: &Option<String>, checks: &Vec<DependencyCheck>)
        requires
            old(self).distinct(),
        ensures
            final(self).distinct(),
            final(self).app() == old(self).app(),
            final(self).matched() == after_checks(
                old(self).matched(),
                rules_of(old(self).app()),
                FileFacts { exists, contents: crate::domain::opt_text_view(*contents) },
                checks_view(checks@),
                checks@.len() as int,
            ),
    {
        let ghost file = FileFacts { exists, contents: crate::domain::opt_text_view(*contents) };
        let ghost rules = rules_of(self.app());
        let ghost list = checks_view(checks@);
        let text: Vec<char> = match contents {
            Some(c) => chars_of(c.as_str()),
            None => Vec::new(),
        };
        let mut i: usize = 0;
        while i < checks.len()
            invariant
                i <= checks@.len(),
                self.distinct(),
                self.app() == old(self).app(),
                rules == rules_of(self.app()),
                list == checks_view(checks@),
                file == (FileFacts { exists, contents: crate::domain::opt_text_view(*contents) }),
                contents matches Some(c) ==> text@ == c@,
                self.matched() == after_checks(old(self).matched(), rules, file, list, i as int),
            decreases checks@.len() - i,
        {
            let (rule, hit) = match &checks[i] {
                DependencyCheck::Exists(rule) => (rule, exists),
                DependencyCheck::Contains(needle, rule) => {
                    let found = exists && contents.is_some() && contains_text(
                        text.as_slice(),
                        chars_of(needle.as_str()).as_slice(),
                    );
                    (rule, found)
                },
            };
            assert(rule@ == rule_of(list[i as int]));
            assert(hit == holds(list[i as int], file));
            if hit && self.is_known(rule.as_str()) && !self.has_matched(rule.as_str()) {
                self.note(rule.clone());
            }
            i += 1;
        }
    }

    fn note(&mut self, rule: String)
        requires
            old(self).distinct(),
            !old(self).matched().contains(rule@),
        ensures
            final(self).distinct(),
            final(self).app() == old(self).app(),
            final(self).matched() == old(self).matched().push(rule@),
    {
        let ghost before = self.matched();
        self.matched.push(rule);
        assert(self.matched() =~= before.push(rule@));
        assert(self.matched().no_duplicates()) by {
            assert forall|a: int, b: int| 0 <= a < self.matched().len() && 0 <= b < self.matched().len() && a
                != b implies self.matched()[a] != self.matched()[b] by {
                if a < before.len() && b < before.len() {
                    assert(before[a] != before[b]);
                } else if a < before.len() {
                    assert(before.contains(before[a]));
                } else {
                    assert(before.contains(before[b]));
                }
            }
        }
    }

    /// The text filed under `rule`; none where the app describes no such rule.
    /// Where the app describes the rule twice, the later text counts.
    pub fn block_for(&self, rule: &str) -> (r: Option<String>)
        ensures
            match r {
                Some(block) => known(rules_of(self.app()), rule@) && block@ == block_of(rules_of(self.app()), rule@),
                None => !known(rules_of(self.app()), rule@),
            },
    {
        match &self.app.dependencies {
            None => None,
            Some(list) => {
                let ghost rules = dependencies_view(list@);
                let mut i: usize = list.len();
                assert(rules.take(i as int) =~= rules);
                while i > 0
                    invariant
                        i <= list@.len(),
                        rules == dependencies_view(list@),
                        rules == rules_of(self.app()),
                        block_of(rules, rule@) == block_of(rules.take(i as int), rule@),
                        forall|k: int| i <= k < rules.len() ==> (#[trigger] rules[k]).name != rule@,
                    decreases i,
                {
                    i -= 1;
                    assert(rules.take(i + 1).last() == rules[i as int]);
                    assert(rules.take(i + 1).drop_last() =~= rules.take(i as int));
                    if same_text(list[i].name.as_str(), rule) {
                        assert(rules[i as int].name == rule@);
                        return Some(list[i].block.clone());
                    }
                }
                None
            },
        }
    }

    /// The matched rules with their texts, in the order of their first match.
    pub fn report(&self) -> (r: Vec<Dependency>)
        requires
            self.distinct(),
        ensures
            forall|i: int, j: int| 0 <= i < j < r@.len() ==> r@[i]@.name != r@[j]@.name,
            r@.len() == self.matched().len(),
            forall|i: int| 0 <= i < r@.len() ==> (#[trigger] r@[i])@ == (DependencyView {
                name: self.matched()[i],
                block: block_of(rules_of(self.app()), self.matched()[i]),
            }),
    {
        let mut out: Vec<Dependency> = Vec::new();
        let mut i: usize = 0;
        while i < self.matched.len()
            invariant
                i <= self.matched@.len(),
                out@.len() == i,
                forall|k: int| 0 <= k < i ==> (#[trigger] out@[k])@ == (DependencyView {
                    name: self.matched()[k],
                    block: block_of(rules_of(self.app()), self.matched()[k]),
                }),
            decreases self.matched@.len() - i,
        {
            let name = self.matched[i].clone();
            let block = match self.block_for(name.as_str()) {
                Some(block) => block,
                None => {
                    proof {
                        lemma_unknown_block(rules_of(self.app()), name@);
                    }
                    String::new()
                },
            };
            out.push(Dependency { name, block });
            i += 1;
        }
        out
    }
}

/// Noting a rule keeps the matched rules free of repeats, and the rule is among them after.
pub proof fn lemma_noted(matched: Seq<Seq<char>>, rule: Seq<char>)
    requires
        matched.no_duplicates(),
    ensures
        noted(matched, rule).no_duplicates(),
        noted(matched, rule).contains(rule),
        forall|other: Seq<char>| matched.contains(other) ==> noted(matched, rule).contains(other),
        forall|other: Seq<char>| noted(matched, rule).contains(other) ==> other == rule || matched.contains(other),
{
    let after = noted(matched, rule);
    if !matched.contains(rule) {
        assert(after[matched.len() as int] == rule);
        assert forall|a: int, b: int| 0 <= a < after.len() && 0 <= b < after.len() && a != b implies after[a]
            != after[b] by {
            if a < matched.len() && b < matched.len() {
                assert(matched[a] != matched[b]);
            } else if a < matched.len() {
                assert(matched.contains(matched[a]));
            } else {
                assert(matched.contains(matched[b]));
            }
        }
        assert forall|other: Seq<char>| matched.contains(other) implies after.contains(other) by {
            let k = choose|k: int| 0 <= k < matched.len() && matched[k] == other;
            assert(after[k] == other);
        }
    }
}

/// The checks of a file keep the matched rules free of repeats and drop none
/// of them; a check that holds and names a described rule leaves its rule
/// among them.
pub proof fn lemma_after_checks(matched: Seq<Seq<char>>, rules: Seq<DependencyView>, file: FileFacts, checks: Seq<CheckView>, n: int)
    requires
        matched.no_duplicates(),
        0 <= n <= checks.len(),
    ensures
        after_checks(matched, rules, file, checks, n).no_duplicates(),
        forall|rule: Seq<char>| matched.contains(rule) ==> after_checks(matched, rules, file, checks, n).contains(rule),
        forall|i: int|
            0 <= i < n && holds(#[trigger] checks[i], file) && known(rules, rule_of(checks[i])) ==> after_checks(
                matched,
                rules,
                file,
                checks,
                n,
            ).contains(rule_of(checks[i])),
    decreases n,
{
    if n > 0 {
        let before = after_checks(matched, rules, file, checks, n - 1);
        lemma_after_checks(matched, rules, file, checks, n - 1);
        lemma_noted(before, rule_of(checks[n - 1]));
    }
}

/// Dedup law: a rule that checks of two files match is among the matched
/// rules after both files, at exactly one place.
pub proof fn lemma_reported_once(
    matched: Seq<Seq<char>>,
    rules: Seq<DependencyView>,
    first: FileFacts,
    first_checks: Seq<CheckView>,
    second: FileFacts,
    second_checks: Seq<CheckView>,
    i: int,
    j: int,
)
    requires
        matched.no_duplicates(),
        0 <= i < first_checks.len(),
        0 <= j < second_checks.len(),
        holds(first_checks[i], first),
        holds(second_checks[j], second),
        rule_of(first_checks[i]) == rule_of(second_checks[j]),
        known(rules, rule_of(first_checks[i])),
    ensures
        ({
            let middle = after_checks(matched, rules, first, first_checks, first_checks.len() as int);
            let last = after_checks(middle, rules, second, second_checks, second_checks.len() as int);
            let rule = rule_of(first_checks[i]);
            exists|k: int|
                0 <= k < last.len() && last[k] == rule && forall|other: int|
                    0 <= other < last.len() && last[other] == rule ==> other == k
        }),
{
    let middle = after_checks(matched, rules, first, first_checks, first_checks.len() as int);
    let last = after_checks(middle, rules, second, second_checks, second_checks.len() as int);
    let rule = rule_of(first_checks[i]);
    lemma_after_checks(matched, rules, first, first_checks, first_checks.len() as int);
    lemma_after_checks(middle, rules, second, second_checks, second_checks.len() as int);
    assert(last.contains(rule));
    let k = choose|k: int| 0 <= k < last.len() && last[k] == rule;
    assert(0 <= k < last.len() && last[k] == rule && forall|other: int|
        0 <= other < last.len() && last[other] == rule ==> other == k);
}

/// A rule that the app does not describe has no text.
pub proof fn lemma_unknown_block(rules: Seq<DependencyView>, rule: Seq<char>)
    requires
        !known(rules, rule),
    ensures
        block_of(rules, rule) == Seq::<char>::empty(),
    decreases rules.len(),
{
    if rules.len() > 0 {
        assert(rules[rules.len() - 1].name != rule);
        assert forall|i: int| 0 <= i < rules.drop_last().len() implies (#[trigger] rules.drop_last()[i]).name
            != rule by {
            assert(rules[i].name != rule);
        }
        lemma_unknown_block(rules.drop_last(), rule);
    }
}

} // verus!
