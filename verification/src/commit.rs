//! The typed commit model: identifiers, ref decorations and the
//! commit record itself.

use vstd::prelude::*;

verus! {

use crate::strutil::{
    spec_split, spec_contains, views_of, str_views, chars_eq, match_at, contains_chars,
    split_chars, tail_from, chars_to_string, str_chars, to_lowercase, lower_of,
};
use vstd::multiset::Multiset;

/// A commit object identifier: the hash string produced by the
/// version-control backend. Equality is exact string match.
#[derive(Clone, Debug)]
pub struct Oid(pub String);

impl PartialEq for Oid {
    fn eq(&self, other: &Self) -> (r: bool) {
        self.0 == other.0
    }
}

impl Eq for Oid {

}

impl vstd::std_specs::cmp::PartialEqSpecImpl for Oid {
    open spec fn obeys_eq_spec() -> bool {
        true
    }

    open spec fn eq_spec(&self, other: &Oid) -> bool {
        self.0@ == other.0@
    }
}

/// A human-readable ref name: a branch, a tag or the head alias.
#[derive(Clone, Debug)]
pub struct GitRef(pub String);

impl PartialEq for GitRef {
    fn eq(&self, other: &Self) -> (r: bool) {
        self.0 == other.0
    }
}

impl Eq for GitRef {

}

impl vstd::std_specs::cmp::PartialEqSpecImpl for GitRef {
    open spec fn obeys_eq_spec() -> bool {
        true
    }

    open spec fn eq_spec(&self, other: &GitRef) -> bool {
        self.0@ == other.0@
    }
}

/// The views of a sequence of identifiers.
pub open spec fn oid_views(v: Seq<Oid>) -> Seq<Seq<char>> {
    v.map_values(|o: Oid| o.0@)
}

/// The views of a sequence of ref names.
pub open spec fn ref_views(v: Seq<GitRef>) -> Seq<Seq<char>> {
    v.map_values(|g: GitRef| g.0@)
}

/// One commit of the materialized history.
///
/// A commit is created once per parsed record and never changes,
/// except for `folded`, which the presentation layer alone toggles,
/// and `is_fork_point`, which an ancestor check resolves.
#[derive(Clone, Debug)]
pub struct Commit {
    pub id: Oid,
    pub short_id: String,
    pub author_name: String,
    pub author_email: String,
    pub author_date: String,
    pub author_rel_date: String,
    pub committer_name: String,
    pub committer_email: String,
    pub committer_date: String,
    pub committer_rel_date: String,
    pub subject: String,
    pub subject_module: Option<String>,
    pub short_subject: Option<String>,
    pub body: String,
    pub icon: String,
    pub folded: bool,
    pub above: Option<Oid>,
    pub bellow: Option<Oid>,
    pub children: Vec<Oid>,
    pub level: u8,
    pub is_commit_link: bool,
    pub is_fork_point: bool,
    pub is_head: bool,
    pub is_merge: bool,
    pub branches: Vec<GitRef>,
    pub references: Vec<GitRef>,
    pub tags: Vec<GitRef>,
    pub subtree_modules: Vec<String>,
}

/// The two commits agree on every field except the two mutable
/// flags, `folded` and `is_fork_point`.
pub open spec fn same_commit_core(a: Commit, b: Commit) -> bool {
    &&& a.id == b.id
    &&& a.short_id == b.short_id
    &&& a.author_name == b.author_name
    &&& a.author_email == b.author_email
    &&& a.author_date == b.author_date
    &&& a.author_rel_date == b.author_rel_date
    &&& a.committer_name == b.committer_name
    &&& a.committer_email == b.committer_email
    &&& a.committer_date == b.committer_date
    &&& a.committer_rel_date == b.committer_rel_date
    &&& a.subject == b.subject
    &&& a.subject_module == b.subject_module
    &&& a.short_subject == b.short_subject
    &&& a.body == b.body
    &&& a.icon == b.icon
    &&& a.above == b.above
    &&& a.bellow == b.bellow
    &&& a.children == b.children
    &&& a.level == b.level
    &&& a.is_commit_link == b.is_commit_link
    &&& a.is_head == b.is_head
    &&& a.is_merge == b.is_merge
    &&& a.branches == b.branches
    &&& a.references == b.references
    &&& a.tags == b.tags
    &&& a.subtree_modules == b.subtree_modules
}

impl Commit {
    /// The primary ancestor's identifier, absent only for a root commit.
    pub fn bellow(&self) -> (r: Option<&Oid>)
        ensures
            match self.bellow {
                Some(a) => r matches Some(x) && x == a,
                None => r is None,
            },
    {
        self.bellow.as_ref()
    }

    /// The structural predecessor's identifier, absent for the first
    /// commit of a build pass without context.
    pub fn above(&self) -> (r: Option<&Oid>)
        ensures
            match self.above {
                Some(a) => r matches Some(x) && x == a,
                None => r is None,
            },
    {
        self.above.as_ref()
    }

    /// The identifier of this commit.
    pub fn id(&self) -> (r: &Oid)
        ensures
            r == self.id,
    {
        &self.id
    }

    /// The abbreviated identifier.
    pub fn short_id(&self) -> (r: &String)
        ensures
            r == self.short_id,
    {
        &self.short_id
    }

    /// The author's name.
    pub fn author_name(&self) -> (r: &String)
        ensures
            r == self.author_name,
    {
        &self.author_name
    }

    /// The author's mail address.
    pub fn author_email(&self) -> (r: &String)
        ensures
            r == self.author_email,
    {
        &self.author_email
    }

    /// The authoring date.
    pub fn author_date(&self) -> (r: &String)
        ensures
            r == self.author_date,
    {
        &self.author_date
    }

    /// The authoring date relative to now.
    pub fn author_rel_date(&self) -> (r: &String)
        ensures
            r == self.author_rel_date,
    {
        &self.author_rel_date
    }

    /// The committer's name.
    pub fn committer_name(&self) -> (r: &String)
        ensures
            r == self.committer_name,
    {
        &self.committer_name
    }

    /// The committer's mail address.
    pub fn committer_email(&self) -> (r: &String)
        ensures
            r == self.committer_email,
    {
        &self.committer_email
    }

    /// The commit date.
    pub fn committer_date(&self) -> (r: &String)
        ensures
            r == self.committer_date,
    {
        &self.committer_date
    }

    /// The commit date relative to now.
    pub fn committer_rel_date(&self) -> (r: &String)
        ensures
            r == self.committer_rel_date,
    {
        &self.committer_rel_date
    }

    /// The subject line of the commit message.
    pub fn subject(&self) -> (r: &String)
        ensures
            r == self.subject,
    {
        &self.subject
    }

    /// The scope of a conventional-commit subject, where one is present.
    pub fn subject_module(&self) -> (r: Option<&String>)
        ensures
            match self.subject_module {
                Some(m) => r matches Some(x) && x == m,
                None => r is None,
            },
    {
        self.subject_module.as_ref()
    }

    /// The subject without its conventional-commit prefix, where the
    /// subject has one.
    pub fn short_subject(&self) -> (r: Option<&String>)
        ensures
            match self.short_subject {
                Some(m) => r matches Some(x) && x == m,
                None => r is None,
            },
    {
        self.short_subject.as_ref()
    }

    /// The message body.
    pub fn body(&self) -> (r: &String)
        ensures
            r == self.body,
    {
        &self.body
    }

    /// The category glyph derived from the subject.
    pub fn icon(&self) -> (r: &String)
        ensures
            r == self.icon,
    {
        &self.icon
    }

    /// The secondary ancestors: every parent the backend recorded
    /// after the first.
    pub fn children(&self) -> (r: &Vec<Oid>)
        ensures
            r == self.children,
    {
        &self.children
    }

    /// The branch names attached to this commit.
    pub fn branches(&self) -> (r: &Vec<GitRef>)
        ensures
            r == self.branches,
    {
        &self.branches
    }

    /// The tag names attached to this commit.
    pub fn tags(&self) -> (r: &Vec<GitRef>)
        ensures
            r == self.tags,
    {
        &self.tags
    }

    /// Every ref name attached to this commit: the branches and the
    /// tags together, in decoration order.
    pub fn references(&self) -> (r: &Vec<GitRef>)
        ensures
            r == self.references,
    {
        &self.references
    }

    /// The names of the configured modules this commit touches.
    pub fn subtree_modules(&self) -> (r: &[String])
        ensures
            r@ == self.subtree_modules@,
    {
        self.subtree_modules.as_slice()
    }

    /// The nesting depth from merge expansion.
    pub fn level(&self) -> (r: u8)
        ensures
            r == self.level,
    {
        self.level
    }

    /// Whether the head points at this commit.
    pub fn is_head(&self) -> (r: bool)
        ensures
            r == self.is_head,
    {
        self.is_head
    }

    /// Whether a merged branch's history diverged here.
    pub fn is_fork_point(&self) -> (r: bool)
        ensures
            r == self.is_fork_point,
    {
        self.is_fork_point
    }

    /// Whether this commit absorbed another branch: it has a primary
    /// ancestor and at least one secondary one.
    pub fn is_merge(&self) -> (r: bool)
        ensures
            r == (self.bellow is Some && self.children@.len() > 0),
    {
        self.bellow.is_some() && self.children.len() > 0
    }

    /// Whether this is a synthetic jump target rather than a fully
    /// parsed history entry.
    pub fn is_commit_link(&self) -> (r: bool)
        ensures
            r == self.is_commit_link,
    {
        self.is_commit_link
    }

    /// Whether the presentation layer shows this commit folded.
    pub fn is_folded(&self) -> (r: bool)
        ensures
            r == self.folded,
    {
        self.folded
    }

    /// Folds or unfolds the commit. Nothing else changes.
    pub fn folded(&mut self, p0: bool)
        ensures
            same_commit_core(*final(self), *old(self)),
            final(self).is_fork_point == old(self).is_fork_point,
            final(self).folded == p0,
    {
        self.folded = p0;
    }

    /// Resolves the fork-point flag. Nothing else changes.
    pub fn set_fork_point(&mut self, v: bool)
        ensures
            same_commit_core(*final(self), *old(self)),
            final(self).folded == old(self).folded,
            final(self).is_fork_point == v,
    {
        self.is_fork_point = v;
    }
}

// ---------------------------------------------------------------------
// Ref decorations
// ---------------------------------------------------------------------

/// The decoration token that names the head directly.
pub open spec fn head_marker() -> Seq<char> {
    seq!['H', 'E', 'A', 'D']
}

/// The prefix of a decoration token that names the head and the
/// branch it points at.
pub open spec fn head_arrow() -> Seq<char> {
    seq!['H', 'E', 'A', 'D', ' ', '-', '>', ' ']
}

/// The prefix of a decoration token that names a tag.
pub open spec fn tag_marker() -> Seq<char> {
    seq!['t', 'a', 'g', ':', ' ']
}

/// Whether the token names the head together with a branch.
pub open spec fn is_arrow_token(t: Seq<char>) -> bool {
    t.len() >= 8 && t.subrange(0, 8) == head_arrow()
}

/// Whether the token names a tag.
pub open spec fn is_tag_token(t: Seq<char>) -> bool {
    t.len() >= 5 && t.subrange(0, 5) == tag_marker()
}

/// The branch names among the decoration tokens, in order: the target
/// of a head arrow, and every plain token.
pub open spec fn spec_branches(toks: Seq<Seq<char>>) -> Seq<Seq<char>>
    decreases toks.len(),
{
    if toks.len() == 0 {
        Seq::empty()
    } else {
        let t = toks[0];
        let rest = spec_branches(toks.skip(1));
        if t.len() == 0 || t == head_marker() {
            rest
        } else if is_arrow_token(t) {
            seq![t.skip(8)] + rest
        } else if is_tag_token(t) {
            rest
        } else {
            seq![t] + rest
        }
    }
}

/// The tag names among the decoration tokens, in order.
pub open spec fn spec_tags(toks: Seq<Seq<char>>) -> Seq<Seq<char>>
    decreases toks.len(),
{
    if toks.len() == 0 {
        Seq::empty()
    } else {
        let t = toks[0];
        let rest = spec_tags(toks.skip(1));
        if t.len() == 0 || t == head_marker() {
            rest
        } else if is_arrow_token(t) {
            rest
        } else if is_tag_token(t) {
            seq![t.skip(5)] + rest
        } else {
            rest
        }
    }
}

/// Every ref name among the decoration tokens: branches and tags
/// together, in token order.
pub open spec fn spec_references(toks: Seq<Seq<char>>) -> Seq<Seq<char>>
    decreases toks.len(),
{
    if toks.len() == 0 {
        Seq::empty()
    } else {
        let t = toks[0];
        let rest = spec_references(toks.skip(1));
        if t.len() == 0 || t == head_marker() {
            rest
        } else if is_arrow_token(t) {
            seq![t.skip(8)] + rest
        } else if is_tag_token(t) {
            seq![t.skip(5)] + rest
        } else {
            seq![t] + rest
        }
    }
}

/// Whether the decoration tokens mark the commit as the head.
pub open spec fn spec_is_head(toks: Seq<Seq<char>>) -> bool
    decreases toks.len(),
{
    if toks.len() == 0 {
        false
    } else {
        let t = toks[0];
        t == head_marker() || is_arrow_token(t) || spec_is_head(toks.skip(1))
    }
}

/// Classifies the decoration tokens: branch names, tag names, every
/// ref name in token order, and whether the head is here.
pub fn parse_decorations(tokens: &Vec<Vec<char>>) -> (r: (Vec<GitRef>, Vec<GitRef>, Vec<
    GitRef,
>, bool))
    ensures
        ref_views(r.0@) == spec_branches(views_of(tokens@)),
        ref_views(r.1@) == spec_tags(views_of(tokens@)),
        ref_views(r.2@) == spec_references(views_of(tokens@)),
        r.3 == spec_is_head(views_of(tokens@)),
{
    let head: Vec<char> = vec!['H', 'E', 'A', 'D'];
    let arrow: Vec<char> = vec!['H', 'E', 'A', 'D', ' ', '-', '>', ' '];
    let tagm: Vec<char> = vec!['t', 'a', 'g', ':', ' '];
    proof {
        assert(head@ =~= head_marker());
        assert(arrow@ =~= head_arrow());
        assert(tagm@ =~= tag_marker());
    }
    let mut branches: Vec<GitRef> = Vec::new();
    let mut tags: Vec<GitRef> = Vec::new();
    let mut references: Vec<GitRef> = Vec::new();
    let mut is_head = false;
    let ghost toks = views_of(tokens@);
    let mut i: usize = 0;
    proof {
        assert(toks.skip(0) =~= toks);
    }
    while i < tokens.len()
        invariant
            i <= tokens@.len(),
            toks == views_of(tokens@),
            head@ == head_marker(),
            arrow@ == head_arrow(),
            tagm@ == tag_marker(),
            spec_branches(toks) == ref_views(branches@) + spec_branches(toks.skip(i as int)),
            spec_tags(toks) == ref_views(tags@) + spec_tags(toks.skip(i as int)),
            spec_references(toks) == ref_views(references@) + spec_references(
                toks.skip(i as int),
            ),
            spec_is_head(toks) == (is_head || spec_is_head(toks.skip(i as int))),
        decreases tokens@.len() - i,
    {
        let t = &tokens[i];
        let ghost suffix = toks.skip(i as int);
        proof {
            assert(suffix[0] == t@);
            assert(suffix.skip(1) =~= toks.skip(i + 1));
        }
        let ghost branches0 = branches@;
        let ghost tags0 = tags@;
        let ghost references0 = references@;
        if t.len() == 0 {
            // an empty token carries nothing
        } else if chars_eq(t, &head) {
            is_head = true;
        } else if match_at(t, &arrow, 0) {
            is_head = true;
            let name = chars_to_string(&tail_from(t, 8));
            branches.push(GitRef(name));
            let name2 = chars_to_string(&tail_from(t, 8));
            references.push(GitRef(name2));
            proof {
                assert(ref_views(branches@) =~= ref_views(branches0) + seq![t@.skip(8)]);
                assert(ref_views(references@) =~= ref_views(references0) + seq![t@.skip(8)]);
            }
        } else if match_at(t, &tagm, 0) {
            let name = chars_to_string(&tail_from(t, 5));
            tags.push(GitRef(name));
            let name2 = chars_to_string(&tail_from(t, 5));
            references.push(GitRef(name2));
            proof {
                assert(ref_views(tags@) =~= ref_views(tags0) + seq![t@.skip(5)]);
                assert(ref_views(references@) =~= ref_views(references0) + seq![t@.skip(5)]);
            }
        } else {
            let name = chars_to_string(&subvec_all(t));
            branches.push(GitRef(name));
            let name2 = chars_to_string(&subvec_all(t));
            references.push(GitRef(name2));
            proof {
                assert(ref_views(branches@) =~= ref_views(branches0) + seq![t@]);
                assert(ref_views(references@) =~= ref_views(references0) + seq![t@]);
            }
        }
        proof {
            assert(spec_branches(suffix) == if suffix[0].len() == 0 || suffix[0] == head_marker()
                || is_tag_token(suffix[0]) {
                spec_branches(toks.skip(i + 1))
            } else if is_arrow_token(suffix[0]) {
                seq![suffix[0].skip(8)] + spec_branches(toks.skip(i + 1))
            } else {
                seq![suffix[0]] + spec_branches(toks.skip(i + 1))
            });
            assert(ref_views(branches@) + spec_branches(toks.skip(i + 1)) =~= ref_views(branches0)
                + spec_branches(suffix));
            assert(ref_views(tags@) + spec_tags(toks.skip(i + 1)) =~= ref_views(tags0)
                + spec_tags(suffix));
            assert(ref_views(references@) + spec_references(toks.skip(i + 1)) =~= ref_views(
                references0,
            ) + spec_references(suffix));
        }
        i += 1;
    }
    proof {
        assert(toks.skip(toks.len() as int) =~= Seq::<Seq<char>>::empty());
        assert(ref_views(branches@) + Seq::<Seq<char>>::empty() =~= ref_views(branches@));
        assert(ref_views(tags@) + Seq::<Seq<char>>::empty() =~= ref_views(tags@));
        assert(ref_views(references@) + Seq::<Seq<char>>::empty() =~= ref_views(references@));
    }
    (branches, tags, references, is_head)
}

/// A copy of the whole token; keeps the decoration loop uniform.
fn subvec_all(v: &Vec<char>) -> (r: Vec<char>)
    ensures
        r@ == v@,
{
    let r = crate::strutil::subvec(v, 0, v.len());
    proof {
        assert(v@.subrange(0, v@.len() as int) =~= v@);
    }
    r
}

// ---------------------------------------------------------------------
// Parents
// ---------------------------------------------------------------------

/// The parent hashes recorded in the parents field: none for an empty
/// field, else the space-separated tokens.
pub open spec fn spec_parent_tokens(field: Seq<char>) -> Seq<Seq<char>> {
    if field.len() == 0 {
        Seq::empty()
    } else {
        spec_split(field, seq![' '])
    }
}

/// Splits the parents field into the primary ancestor and the
/// remaining, secondary parents.
pub fn parse_parents(field: &Vec<char>) -> (r: (Option<Oid>, Vec<Oid>))
    ensures
        match r.0 {
            None => spec_parent_tokens(field@).len() == 0,
            Some(o) => spec_parent_tokens(field@).len() >= 1 && o.0@ == spec_parent_tokens(
                field@,
            )[0],
        },
        spec_parent_tokens(field@).len() == 0 ==> r.1@.len() == 0,
        spec_parent_tokens(field@).len() >= 1 ==> oid_views(r.1@) == spec_parent_tokens(
            field@,
        ).skip(1),
{
    if field.len() == 0 {
        return (None, Vec::new());
    }
    let sep: Vec<char> = vec![' '];
    let tokens = split_chars(field, &sep);
    proof {
        crate::strutil::lemma_split_len(field@, sep@);
        assert(sep@ =~= seq![' ']);
        assert(views_of(tokens@).len() >= 1);
    }
    let mut children: Vec<Oid> = Vec::new();
    let mut i: usize = 1;
    while i < tokens.len()
        invariant
            1 <= i <= tokens@.len(),
            oid_views(children@) == views_of(tokens@).subrange(1, i as int),
        decreases tokens@.len() - i,
    {
        let ghost children0 = children@;
        children.push(Oid(chars_to_string(&tokens[i])));
        proof {
            assert(oid_views(children@) =~= oid_views(children0) + seq![tokens@[i as int]@]);
            assert(views_of(tokens@).subrange(1, i + 1) =~= views_of(tokens@).subrange(1, i as int)
                + seq![views_of(tokens@)[i as int]]);
        }
        i += 1;
    }
    let bellow = Oid(chars_to_string(&tokens[0]));
    proof {
        assert(views_of(tokens@).subrange(1, tokens@.len() as int) =~= views_of(tokens@).skip(1));
    }
    (Some(bellow), children)
}


// ---------------------------------------------------------------------
// Conventional-commit scope extraction
// ---------------------------------------------------------------------

/// Whether `c` counts as a word character of a conventional-commit
/// type: an ASCII letter, digit or underscore.
pub open spec fn is_word_char(c: char) -> bool {
    ('a' <= c && c <= 'z') || ('A' <= c && c <= 'Z') || ('0' <= c && c <= '9') || c == '_'
}

/// Whether a conventional-commit scope opens at `open` in `s`: a
/// non-empty run of word characters from the start, then `(`.
pub open spec fn scope_open_at(s: Seq<char>, open: int) -> bool {
    &&& 1 <= open < s.len()
    &&& s[open] == '('
    &&& forall|k: int| 0 <= k < open ==> is_word_char(#[trigger] s[k])
}

/// Whether a scope opened at `open` can close at `j`: at least one
/// scope character, then `): `, then at least one more character.
pub open spec fn scope_close_at(s: Seq<char>, open: int, j: int) -> bool {
    &&& open + 2 <= j
    &&& j + 4 <= s.len()
    &&& s[j] == ')'
    &&& s[j + 1] == ':'
    &&& s[j + 2] == ' '
}

/// Whether the subject carries a conventional-commit scope.
pub open spec fn spec_has_scope(s: Seq<char>) -> bool {
    exists|open: int, j: int| scope_open_at(s, open) && #[trigger] scope_close_at(s, open, j)
}

/// How a subject relates to the scope and remainder extracted from
/// it: the scope runs from after the `(` to the last viable close,
/// the remainder is everything after the `): `.
pub open spec fn scope_parts_of(s: Seq<char>, module: Seq<char>, rest: Seq<char>) -> bool {
    exists|open: int, j: int|
        {
            &&& scope_open_at(s, open)
            &&& #[trigger] scope_close_at(s, open, j)
            &&& forall|j2: int| j < j2 ==> !scope_close_at(s, open, j2)
            &&& module == s.subrange(open + 1, j)
            &&& rest == s.skip(j + 3)
        }
}


/// Whether `c` counts as a word character, decided at run time.
fn is_word_char_exec(c: char) -> (r: bool)
    ensures
        r == is_word_char(c),
{
    ('a' <= c && c <= 'z') || ('A' <= c && c <= 'Z') || ('0' <= c && c <= '9') || c == '_'
}

/// Extracts the conventional-commit scope and the subject without its
/// prefix, where the subject has the shape `type(scope): rest`.
pub fn extract_scope(subject: &Vec<char>) -> (r: Option<(String, String)>)
    ensures
        r is Some <==> spec_has_scope(subject@),
        r matches Some(p) ==> scope_parts_of(subject@, p.0@, p.1@),
{
    let n = subject.len();
    let mut open: usize = 0;
    while open < n && is_word_char_exec(subject[open])
        invariant
            n == subject@.len(),
            open <= n,
            forall|k: int| 0 <= k < open ==> is_word_char(#[trigger] subject@[k]),
        decreases n - open,
    {
        open += 1;
    }
    if open == 0 || open >= n || subject[open] != '(' {
        proof {
            assert forall|o: int, j: int| !(scope_open_at(subject@, o) && #[trigger] scope_close_at(
                subject@,
                o,
            j)) by {
                if scope_open_at(subject@, o) {
                    if o < open {
                        assert(is_word_char(subject@[o]));
                    } else if o > open && open < n {
                        assert(!is_word_char(subject@[open as int]));
                        assert(is_word_char(subject@[open as int]));
                    }
                }
            }
        }
        return None;
    }
    // `open` is the only viable opening: everything before it is a word
    // character, and a word run cannot pass the `(`.
    proof {
        assert forall|o: int| scope_open_at(subject@, o) implies o == open as int by {
            if o < open {
                assert(is_word_char(subject@[o]));
            } else if o > open {
                assert(!is_word_char(subject@[open as int]));
                assert(is_word_char(subject@[open as int]));
            }
        }
    }
    if n - open < 6 {
        proof {
            assert forall|o: int, j: int| !(scope_open_at(subject@, o) && #[trigger] scope_close_at(
                subject@,
                o,
            j)) by {
                if scope_open_at(subject@, o) {
                    assert(o == open as int);
                }
            }
        }
        return None;
    }
    let mut j: usize = n - 4;
    loop
        invariant
            n == subject@.len(),
            n >= 4,
            open as int + 2 <= n - 4,
            open + 2 <= j <= n - 4,
            scope_open_at(subject@, open as int),
            forall|j2: int| j < j2 ==> !scope_close_at(subject@, open as int, j2),
        decreases j,
    {
        if subject[j] == ')' && subject[j + 1] == ':' && subject[j + 2] == ' ' {
            let module = chars_to_string(&crate::strutil::subvec(subject, open + 1, j));
            let rest = chars_to_string(&tail_from(subject, j + 3));
            proof {
                assert(scope_close_at(subject@, open as int, j as int));
                assert(spec_has_scope(subject@));
                assert(scope_parts_of(subject@, subject@.subrange(open + 1, j as int), subject@.skip(j + 3)));
            }
            return Some((module, rest));
        }
        proof {
            assert(!scope_close_at(subject@, open as int, j as int));
            assert forall|j2: int| j - 1 < j2 implies !scope_close_at(subject@, open as int, j2) by {
                if j2 > j {
                } else {
                    assert(j2 == j);
                }
            }
        }
        if j == open + 2 {
            proof {
                assert forall|o: int, j2: int| !(scope_open_at(subject@, o)
                    && #[trigger] scope_close_at(subject@, o, j2)) by {
                    if scope_open_at(subject@, o) {
                        assert(o == open as int);
                        if scope_close_at(subject@, o, j2) {
                            assert(j2 >= open + 2);
                            assert(j2 <= n - 4);
                            assert(j2 > j || j2 == j);
                        }
                    }
                }
            }
            return None;
        }
        j -= 1;
    }
}

// ---------------------------------------------------------------------
// Searching commit data
// ---------------------------------------------------------------------

/// Whether `needle` occurs in `hay`, folded to lowercase first where
/// the search ignores case.
pub open spec fn text_matches(hay: Seq<char>, needle: Seq<char>, ignore_case: bool) -> bool {
    if ignore_case {
        spec_contains(lower_of(hay), lower_of(needle))
    } else {
        spec_contains(hay, needle)
    }
}

/// Whether `needle` occurs in `hay`; case is folded where asked.
fn text_matches_exec(hay: &str, needle: &str, ignore_case: bool) -> (r: bool)
    ensures
        r == text_matches(hay@, needle@, ignore_case),
{
    if ignore_case {
        let h = to_lowercase(hay);
        let nd = to_lowercase(needle);
        contains_chars(&str_chars(h.as_str()), &str_chars(nd.as_str()))
    } else {
        contains_chars(&str_chars(hay), &str_chars(needle))
    }
}

/// Whether any of the searched texts of the commit contains the
/// needle, with case folded where asked.
pub open spec fn spec_search_matches(c: Commit, needle: Seq<char>, ignore_case: bool) -> bool {
    ||| text_matches(c.author_name@, needle, ignore_case)
    ||| text_matches(c.short_id@, needle, ignore_case)
    ||| text_matches(c.id.0@, needle, ignore_case)
    ||| text_matches(c.author_email@, needle, ignore_case)
    ||| text_matches(c.committer_name@, needle, ignore_case)
    ||| text_matches(c.committer_email@, needle, ignore_case)
    ||| text_matches(c.subject@, needle, ignore_case)
    ||| (c.short_subject matches Some(s) && text_matches(s@, needle, ignore_case))
    ||| (c.subject_module matches Some(s) && text_matches(s@, needle, ignore_case))
    ||| (exists|k: int|
        0 <= k < c.subtree_modules@.len() && text_matches(
            #[trigger] c.subtree_modules@[k]@,
            needle,
            ignore_case,
        ))
    ||| (exists|k: int|
        0 <= k < c.references@.len() && text_matches(
            #[trigger] c.references@[k].0@,
            needle,
            ignore_case,
        ))
}

impl Commit {
    /// Whether the given text occurs anywhere in the commit's data:
    /// identity, author, committer, subject, scope, modules or refs.
    pub fn search_matches(&self, needle: &str, ignore_case: bool) -> (r: bool)
        ensures
            r == spec_search_matches(*self, needle@, ignore_case),
    {
        if text_matches_exec(self.author_name.as_str(), needle, ignore_case) {
            return true;
        }
        if text_matches_exec(self.short_id.as_str(), needle, ignore_case) {
            return true;
        }
        if text_matches_exec(self.id.0.as_str(), needle, ignore_case) {
            return true;
        }
        if text_matches_exec(self.author_email.as_str(), needle, ignore_case) {
            return true;
        }
        if text_matches_exec(self.committer_name.as_str(), needle, ignore_case) {
            return true;
        }
        if text_matches_exec(self.committer_email.as_str(), needle, ignore_case) {
            return true;
        }
        if text_matches_exec(self.subject.as_str(), needle, ignore_case) {
            return true;
        }
        match &self.short_subject {
            Some(s) => {
                if text_matches_exec(s.as_str(), needle, ignore_case) {
                    return true;
                }
            },
            None => {},
        }
        match &self.subject_module {
            Some(s) => {
                if text_matches_exec(s.as_str(), needle, ignore_case) {
                    return true;
                }
            },
            None => {},
        }
        let mut k: usize = 0;
        while k < self.subtree_modules.len()
            invariant
                k <= self.subtree_modules@.len(),
                forall|k2: int|
                    0 <= k2 < k ==> !text_matches(
                        #[trigger] self.subtree_modules@[k2]@,
                        needle@,
                        ignore_case,
                    ),
            decreases self.subtree_modules@.len() - k,
        {
            if text_matches_exec(self.subtree_modules[k].as_str(), needle, ignore_case) {
                return true;
            }
            k += 1;
        }
        let mut k: usize = 0;
        while k < self.references.len()
            invariant
                k <= self.references@.len(),
                forall|k2: int|
                    0 <= k2 < k ==> !text_matches(
                        #[trigger] self.references@[k2].0@,
                        needle@,
                        ignore_case,
                    ),
            decreases self.references@.len() - k,
        {
            if text_matches_exec(self.references[k].0.as_str(), needle, ignore_case) {
                return true;
            }
            k += 1;
        }
        false
    }

    /// Whether the given text occurs in the commit's identity, author,
    /// committer or subject data, case respected.
    pub fn matches(&self, needle: &str) -> (r: bool)
        ensures
            r == {
                ||| spec_contains(self.author_name@, needle@)
                ||| spec_contains(self.short_id@, needle@)
                ||| spec_contains(self.id.0@, needle@)
                ||| spec_contains(self.author_email@, needle@)
                ||| spec_contains(self.committer_name@, needle@)
                ||| spec_contains(self.committer_email@, needle@)
                ||| spec_contains(self.subject@, needle@)
            },
    {
        let nv = str_chars(needle);
        if contains_chars(&str_chars(self.author_name.as_str()), &nv) {
            return true;
        }
        if contains_chars(&str_chars(self.short_id.as_str()), &nv) {
            return true;
        }
        if contains_chars(&str_chars(self.id.0.as_str()), &nv) {
            return true;
        }
        if contains_chars(&str_chars(self.author_email.as_str()), &nv) {
            return true;
        }
        if contains_chars(&str_chars(self.committer_name.as_str()), &nv) {
            return true;
        }
        if contains_chars(&str_chars(self.committer_email.as_str()), &nv) {
            return true;
        }
        if contains_chars(&str_chars(self.subject.as_str()), &nv) {
            return true;
        }
        false
    }
}


// ---------------------------------------------------------------------
// Parsing a whole record
// ---------------------------------------------------------------------

/// The fields of one raw log record: the text between unit
/// separators. The text before the first separator is the header the
/// query prints and is no field.
pub open spec fn record_fields(data: Seq<char>) -> Seq<Seq<char>> {
    spec_split(data, seq!['\u{1f}'])
}

/// A record carries all fourteen fields exactly when splitting it
/// yields the header piece and at least fourteen more.
pub open spec fn record_complete(data: Seq<char>) -> bool {
    record_fields(data).len() >= 15
}

/// Whether the fork-point rule asks for an ancestor query: the
/// predecessor is a merge whose first secondary parent is not this
/// commit.
pub open spec fn spec_needs_ancestor_query(above: Option<Commit>, id: Seq<char>) -> bool {
    match above {
        None => false,
        Some(p) => p.children@.len() > 0 && p.children@[0].0@ != id && p.is_merge,
    }
}

/// How every field of a parsed commit relates to the raw record it
/// was parsed from, given the nesting level, the link flag, the
/// predecessor context, the module names and the classification
/// table in force. The fork-point flag is resolved separately.
pub open spec fn commit_from_record(
    c: Commit,
    data: Seq<char>,
    level: u8,
    is_commit_link: bool,
    above: Option<Commit>,
    modules: Seq<Seq<char>>,
    icons: Seq<(Seq<char>, Seq<char>)>,
) -> bool {
    let fields = record_fields(data);
    let parents = spec_parent_tokens(fields[3]);
    let toks = spec_split(fields[4], seq![',', ' ']);
    &&& c.id.0@ == fields[1]
    &&& c.short_id@ == fields[2]
    &&& (match c.bellow {
        None => parents.len() == 0,
        Some(o) => parents.len() >= 1 && o.0@ == parents[0],
    })
    &&& oid_views(c.children@) == if parents.len() == 0 {
        Seq::<Seq<char>>::empty()
    } else {
        parents.skip(1)
    }
    &&& c.is_merge == (parents.len() >= 2)
    &&& ref_views(c.branches@) == spec_branches(toks)
    &&& ref_views(c.tags@) == spec_tags(toks)
    &&& ref_views(c.references@) == spec_references(toks)
    &&& c.is_head == spec_is_head(toks)
    &&& c.author_name@ == fields[5]
    &&& c.author_email@ == fields[6]
    &&& c.author_date@ == fields[7]
    &&& c.author_rel_date@ == fields[8]
    &&& c.committer_name@ == fields[9]
    &&& c.committer_email@ == fields[10]
    &&& c.committer_date@ == fields[11]
    &&& c.committer_rel_date@ == fields[12]
    &&& c.subject@ == fields[13]
    &&& c.body@ == fields[14]
    &&& c.icon@ == crate::icon::spec_classify(icons, fields[13])
    &&& (match (c.subject_module, c.short_subject) {
        (Some(m), Some(ss)) => scope_parts_of(fields[13], m@, ss@),
        (None, None) => !spec_has_scope(fields[13]),
        _ => false,
    })
    &&& c.level == level
    &&& c.is_commit_link == is_commit_link
    &&& c.folded == true
    &&& (match (c.above, above) {
        (None, None) => true,
        (Some(o), Some(p)) => o.0@ == p.id.0@,
        _ => false,
    })
    &&& str_views(c.subtree_modules@) == modules
}

/// The context commit by value, where there is one.
pub open spec fn spec_above_ref(above: Option<&Commit>) -> Option<Commit> {
    match above {
        None => None,
        Some(p) => Some(*p),
    }
}

/// A copy of an identifier with the same hash string.
pub fn clone_oid(o: &Oid) -> (r: Oid)
    ensures
        r.0@ == o.0@,
{
    Oid(crate::strutil::str_to_owned(o.0.as_str()))
}

/// Parses one raw log record into a commit.
///
/// The commit comes back with its fork-point flag unresolved (false),
/// together with the ancestor query the fork-point rule asks for,
/// where it asks for one: this commit's identifier as the candidate
/// ancestor and the predecessor's first secondary parent as the
/// descendant. A record with fewer fields than the schema requires is
/// rejected as a parse error, never a panic.
pub fn parse_record(
    data: &str,
    level: u8,
    is_commit_link: bool,
    above: Option<&Commit>,
    subtree_modules: &Vec<String>,
    icons: &crate::icon::IconClassifier,
) -> (r: Result<(Commit, Option<(Oid, Oid)>), crate::error::Error>)
    ensures
        r is Ok <==> record_complete(data@),
        !record_complete(data@) ==> r matches Err(crate::error::Error::Parse),
        r matches Ok(p) ==> commit_from_record(
            p.0,
            data@,
            level,
            is_commit_link,
            spec_above_ref(above),
            str_views(subtree_modules@),
            icons.rules_view(),
        ),
        r matches Ok(p) ==> p.0.is_fork_point == false,
        r matches Ok(p) ==> (p.1 is Some == spec_needs_ancestor_query(
            spec_above_ref(above),
            record_fields(data@)[1],
        )),
        r matches Ok(p) ==> (match p.1 {
            Some(q) => q.0.0@ == record_fields(data@)[1] && (above matches Some(a)
                && a.children@.len() > 0 && q.1.0@ == a.children@[0].0@),
            None => true,
        }),
{
    let dv = str_chars(data);
    let field_sep: Vec<char> = vec!['\u{1f}'];
    proof {
        assert(field_sep@ =~= seq!['\u{1f}']);
    }
    let fields = split_chars(&dv, &field_sep);
    proof {
        assert(views_of(fields@) == record_fields(data@));
    }
    if fields.len() < 15 {
        return Err(crate::error::Error::Parse);
    }
    proof {
        assert(views_of(fields@)[1] == fields@[1]@);
        assert(views_of(fields@)[2] == fields@[2]@);
        assert(views_of(fields@)[3] == fields@[3]@);
        assert(views_of(fields@)[4] == fields@[4]@);
        assert(views_of(fields@)[5] == fields@[5]@);
        assert(views_of(fields@)[6] == fields@[6]@);
        assert(views_of(fields@)[7] == fields@[7]@);
        assert(views_of(fields@)[8] == fields@[8]@);
        assert(views_of(fields@)[9] == fields@[9]@);
        assert(views_of(fields@)[10] == fields@[10]@);
        assert(views_of(fields@)[11] == fields@[11]@);
        assert(views_of(fields@)[12] == fields@[12]@);
        assert(views_of(fields@)[13] == fields@[13]@);
        assert(views_of(fields@)[14] == fields@[14]@);
    }
    let id = Oid(chars_to_string(&fields[1]));
    let short_id = chars_to_string(&fields[2]);
    let (bellow, children) = parse_parents(&fields[3]);
    let is_merge = match &bellow {
        None => false,
        Some(_) => children.len() >= 1,
    };
    let dec_sep: Vec<char> = vec![',', ' '];
    proof {
        assert(dec_sep@ =~= seq![',', ' ']);
    }
    let dec_tokens = split_chars(&fields[4], &dec_sep);
    let (branches, tags, references, is_head) = parse_decorations(&dec_tokens);
    let author_name = chars_to_string(&fields[5]);
    let author_email = chars_to_string(&fields[6]);
    let author_date = chars_to_string(&fields[7]);
    let author_rel_date = chars_to_string(&fields[8]);
    let committer_name = chars_to_string(&fields[9]);
    let committer_email = chars_to_string(&fields[10]);
    let committer_date = chars_to_string(&fields[11]);
    let committer_rel_date = chars_to_string(&fields[12]);
    let subject = chars_to_string(&fields[13]);
    let body = chars_to_string(&fields[14]);
    let icon = icons.classify(subject.as_str());
    let (subject_module, short_subject) = match extract_scope(&fields[13]) {
        Some(p) => (Some(p.0), Some(p.1)),
        None => (None, None),
    };
    let (above_oid, ancestor_query): (Option<Oid>, Option<(Oid, Oid)>) = match above {
        None => (None, None),
        Some(p) => {
            let a = Some(clone_oid(&p.id));
            if p.children.len() == 0 {
                (a, None)
            } else if p.children[0].0 == id.0 {
                (a, None)
            } else if p.is_merge {
                (a, Some((clone_oid(&id), clone_oid(&p.children[0]))))
            } else {
                (a, None)
            }
        },
    };
    proof {
        let parents = spec_parent_tokens(fields@[3]@);
        if parents.len() == 0 {
            assert(oid_views(children@) =~= Seq::<Seq<char>>::empty());
        } else {
            assert(oid_views(children@).len() == children@.len());
            assert(oid_views(children@) == parents.skip(1));
            assert(parents.skip(1).len() == parents.len() - 1);
        }
    }
    let commit = Commit {
        id,
        short_id,
        author_name,
        author_email,
        author_date,
        author_rel_date,
        committer_name,
        committer_email,
        committer_date,
        committer_rel_date,
        subject,
        subject_module,
        short_subject,
        body,
        icon,
        folded: true,
        above: above_oid,
        bellow,
        children,
        level,
        is_commit_link,
        is_fork_point: false,
        is_head,
        is_merge,
        branches,
        references,
        tags,
        subtree_modules: crate::strutil::clone_strings(subtree_modules),
    };
    Ok((commit, ancestor_query))
}


// ---------------------------------------------------------------------
// Laws
// ---------------------------------------------------------------------

/// A parsed commit is marked a merge exactly when it has a primary
/// ancestor and at least one secondary parent; in particular a record
/// with no parents yields no primary ancestor, no secondary parents
/// and no merge.
pub proof fn lemma_merge_flag_consistent(
    c: Commit,
    data: Seq<char>,
    level: u8,
    is_commit_link: bool,
    above: Option<Commit>,
    modules: Seq<Seq<char>>,
    icons: Seq<(Seq<char>, Seq<char>)>,
)
    requires
        commit_from_record(c, data, level, is_commit_link, above, modules, icons),
    ensures
        c.is_merge == (c.bellow is Some && c.children@.len() > 0),
        record_fields(data)[3].len() == 0 ==> (c.bellow is None && c.children@.len() == 0
            && !c.is_merge),
{
    let parents = spec_parent_tokens(record_fields(data)[3]);
    assert(oid_views(c.children@).len() == c.children@.len());
    if parents.len() == 0 {
        assert(c.children@.len() == 0);
    } else {
        assert(c.children@.len() == parents.len() - 1);
    }
}

/// The refs of a commit are exactly its branches and its tags
/// together: no name appears in `references` that is not a branch or
/// a tag, and each appears as often as there.
pub proof fn lemma_references_union(toks: Seq<Seq<char>>)
    ensures
        spec_references(toks).to_multiset() == spec_branches(toks).to_multiset().add(
            spec_tags(toks).to_multiset(),
        ),
    decreases toks.len(),
{
    broadcast use vstd::seq_lib::group_seq_properties;

    if toks.len() == 0 {
        assert(spec_references(toks).to_multiset() =~= spec_branches(toks).to_multiset().add(
            spec_tags(toks).to_multiset(),
        ));
    } else {
        lemma_references_union(toks.skip(1));
        let t = toks[0];
        let rb = spec_branches(toks.skip(1));
        let rt = spec_tags(toks.skip(1));
        let rr = spec_references(toks.skip(1));
        if t.len() == 0 || t == head_marker() {
        } else if is_arrow_token(t) {
            vstd::seq_lib::lemma_multiset_commutative(seq![t.skip(8)], rb);
            vstd::seq_lib::lemma_multiset_commutative(seq![t.skip(8)], rr);
            assert(seq![t.skip(8)].to_multiset() =~= Multiset::empty().insert(t.skip(8)));
            assert(spec_references(toks).to_multiset() =~= spec_branches(toks).to_multiset().add(
                spec_tags(toks).to_multiset(),
            ));
        } else if is_tag_token(t) {
            vstd::seq_lib::lemma_multiset_commutative(seq![t.skip(5)], rt);
            vstd::seq_lib::lemma_multiset_commutative(seq![t.skip(5)], rr);
            assert(seq![t.skip(5)].to_multiset() =~= Multiset::empty().insert(t.skip(5)));
            assert(spec_references(toks).to_multiset() =~= spec_branches(toks).to_multiset().add(
                spec_tags(toks).to_multiset(),
            ));
        } else {
            vstd::seq_lib::lemma_multiset_commutative(seq![t], rb);
            vstd::seq_lib::lemma_multiset_commutative(seq![t], rr);
            assert(seq![t].to_multiset() =~= Multiset::empty().insert(t));
            assert(spec_references(toks).to_multiset() =~= spec_branches(toks).to_multiset().add(
                spec_tags(toks).to_multiset(),
            ));
        }
    }
}

} // verus!
