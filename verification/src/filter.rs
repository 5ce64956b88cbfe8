//! Asset name filtering with glob patterns, required keywords and excluded keywords.

use vstd::prelude::*;
use crate::text::{chars_of, contains, contains_chars, owned};

verus! {

broadcast use vstd::string::group_string_axioms;

/// What `str::to_lowercase` gives for a string: its Unicode lowercase
/// mapping.
pub uninterp spec fn lowercase(s: Seq<char>) -> Seq<char>;

/// What `fast_glob::glob_match` answers for a pattern and a path.
pub uninterp spec fn glob_matches(glob: Seq<char>, path: Seq<char>) -> bool;

/// Calls `str::to_lowercase`. Trusted: the result is the name `lowercase`
/// applied to the input; nothing more is claimed of the Unicode mapping.
#[verifier::external_body]
fn to_lowercase(s: &str) -> (r: String)
    ensures
        r@ == lowercase(s@),
{
    s.to_lowercase()
}

/// Calls `fast_glob::glob_match(glob, path)`. Trusted: the answer is the
/// name `glob_matches` applied to the pattern and the path, a function of
/// the two alone; the glob syntax itself is not stated.
#[verifier::external_body]
fn glob_match(glob: &str, path: &str) -> (r: bool)
    ensures
        r == glob_matches(glob@, path@),
{
    fast_glob::glob_match(glob, path)
}

/// Filter for matching asset names against glob patterns and keywords.
///
/// All matching is case-insensitive by default. Use [`Filter::case_sensitive`]
/// to opt into case-sensitive matching.
#[derive(Debug, Clone)]
pub struct Filter {
    globs: Vec<String>,
    required: Vec<String>,
    exclude: Vec<String>,
    case_sensitive: bool,
}

/// The value of a [`Filter`]: its patterns and keywords, in the order they
/// were added, and its case mode.
pub struct FilterView {
    pub globs: Seq<Seq<char>>,
    pub required: Seq<Seq<char>>,
    pub exclude: Seq<Seq<char>>,
    pub case_sensitive: bool,
}

/// The characters of each string.
pub open spec fn strings_view(v: Seq<String>) -> Seq<Seq<char>> {
    v.map_values(|s: String| s@)
}

impl View for Filter {
    type V = FilterView;

    closed spec fn view(&self) -> FilterView {
        FilterView {
            globs: strings_view(self.globs@),
            required: strings_view(self.required@),
            exclude: strings_view(self.exclude@),
            case_sensitive: self.case_sensitive,
        }
    }
}

/// The form in which a name or a pattern is compared: itself in
/// case-sensitive mode, its lowercase mapping otherwise.
pub open spec fn normalize(case_sensitive: bool, s: Seq<char>) -> Seq<char> {
    if case_sensitive {
        s
    } else {
        lowercase(s)
    }
}

/// The `j`-th of `globs` matches the normalized name `n`.
pub open spec fn glob_hit(case_sensitive: bool, globs: Seq<Seq<char>>, n: Seq<char>, j: int) -> bool {
    glob_matches(normalize(case_sensitive, globs[j]), n)
}

/// One of `globs` matches the normalized name `n`.
pub open spec fn any_glob(case_sensitive: bool, globs: Seq<Seq<char>>, n: Seq<char>) -> bool {
    exists|j: int| 0 <= j < globs.len() && #[trigger] glob_hit(case_sensitive, globs, n, j)
}

/// The normalized name `n` contains the `j`-th keyword of `keys`.
pub open spec fn keyword_hit(case_sensitive: bool, keys: Seq<Seq<char>>, n: Seq<char>, j: int) -> bool {
    contains(n, normalize(case_sensitive, keys[j]))
}

/// The normalized name `n` contains one of `keys`.
pub open spec fn any_keyword(case_sensitive: bool, keys: Seq<Seq<char>>, n: Seq<char>) -> bool {
    exists|j: int| 0 <= j < keys.len() && #[trigger] keyword_hit(case_sensitive, keys, n, j)
}

/// `f` accepts the normalized name `n`: with globs, one of them matches;
/// with required keywords, `n` contains one of them; `n` contains no
/// exclude keyword. Patterns and keywords are compared normalized.
pub open spec fn accepts_normalized(f: FilterView, n: Seq<char>) -> bool {
    &&& (f.globs.len() == 0 || any_glob(f.case_sensitive, f.globs, n))
    &&& (f.required.len() == 0 || any_keyword(f.case_sensitive, f.required, n))
    &&& !any_keyword(f.case_sensitive, f.exclude, n)
}

/// `f` accepts `name`, compared in normalized form.
pub open spec fn accepts(f: FilterView, name: Seq<char>) -> bool {
    accepts_normalized(f, normalize(f.case_sensitive, name))
}

impl Filter {
    /// Creates a new empty filter that matches everything.
    pub fn new() -> (f: Self)
        ensures
            f@.globs == Seq::<Seq<char>>::empty(),
            f@.required == Seq::<Seq<char>>::empty(),
            f@.exclude == Seq::<Seq<char>>::empty(),
            !f@.case_sensitive,
    {
        let f = Filter {
            globs: Vec::new(),
            required: Vec::new(),
            exclude: Vec::new(),
            case_sensitive: false,
        };
        assert(strings_view(f.globs@) =~= Seq::<Seq<char>>::empty());
        assert(strings_view(f.required@) =~= Seq::<Seq<char>>::empty());
        assert(strings_view(f.exclude@) =~= Seq::<Seq<char>>::empty());
        f
    }

    /// Adds a glob pattern that asset names must match.
    ///
    /// Multiple glob patterns are OR-ed: a name must match at least one.
    pub fn glob(self, pattern: &str) -> (f: Self)
        ensures
            f@.globs == self@.globs.push(pattern@),
            f@.required == self@.required,
            f@.exclude == self@.exclude,
            f@.case_sensitive == self@.case_sensitive,
    {
        let mut f = self;
        f.globs.push(owned(pattern));
        assert(strings_view(f.globs@) =~= strings_view(self.globs@).push(pattern@));
        f
    }

    /// Adds a keyword that asset names must contain.
    ///
    /// Multiple required keywords are OR-ed: a name must contain at least one.
    pub fn includes(self, keyword: &str) -> (f: Self)
        ensures
            f@.globs == self@.globs,
            f@.required == self@.required.push(keyword@),
            f@.exclude == self@.exclude,
            f@.case_sensitive == self@.case_sensitive,
    {
        let mut f = self;
        f.required.push(owned(keyword));
        assert(strings_view(f.required@) =~= strings_view(self.required@).push(keyword@));
        f
    }

    /// Adds a keyword that asset names must not contain.
    ///
    /// Multiple exclude keywords are OR-ed: a name must not contain any of them.
    pub fn exclude(self, keyword: &str) -> (f: Self)
        ensures
            f@.globs == self@.globs,
            f@.required == self@.required,
            f@.exclude == self@.exclude.push(keyword@),
            f@.case_sensitive == self@.case_sensitive,
    {
        let mut f = self;
        f.exclude.push(owned(keyword));
        assert(strings_view(f.exclude@) =~= strings_view(self.exclude@).push(keyword@));
        f
    }

    /// Sets whether matching is case-sensitive.
    pub fn case_sensitive(self, yes: bool) -> (f: Self)
        ensures
            f@.globs == self@.globs,
            f@.required == self@.required,
            f@.exclude == self@.exclude,
            f@.case_sensitive == yes,
    {
        let mut f = self;
        f.case_sensitive = yes;
        f
    }

    /// `s` in the form in which it is compared.
    fn normalized(&self, s: &str) -> (r: String)
        ensures
            r@ == normalize(self@.case_sensitive, s@),
    {
        if self.case_sensitive {
            owned(s)
        } else {
            to_lowercase(s)
        }
    }

    /// Whether one of the glob patterns matches the normalized name `n`.
    fn any_glob(&self, n: &str) -> (b: bool)
        ensures
            b == any_glob(self@.case_sensitive, self@.globs, n@),
    {
        let mut i: usize = 0;
        while i < self.globs.len()
            invariant
                0 <= i <= self.globs@.len(),
                self@.globs.len() == self.globs@.len(),
                forall|j: int| 0 <= j < i ==> !#[trigger] glob_hit(self@.case_sensitive, self@.globs, n@, j),
            decreases self.globs@.len() - i,
        {
            let pattern = self.normalized(self.globs[i].as_str());
            if glob_match(pattern.as_str(), n) {
                assert(glob_hit(self@.case_sensitive, self@.globs, n@, i as int));
                return true;
            }
            i = i + 1;
        }
        false
    }

    /// Whether the normalized name `n` contains one of `keys`.
    fn any_keyword_in(&self, keys: &Vec<String>, n: &Vec<char>) -> (b: bool)
        ensures
            b == any_keyword(self@.case_sensitive, strings_view(keys@), n@),
    {
        let ghost ks = strings_view(keys@);
        let mut i: usize = 0;
        while i < keys.len()
            invariant
                0 <= i <= keys@.len(),
                ks == strings_view(keys@),
                ks.len() == keys@.len(),
                forall|j: int| 0 <= j < i ==> !#[trigger] keyword_hit(self@.case_sensitive, ks, n@, j),
            decreases keys@.len() - i,
        {
            let keyword = self.normalized(keys[i].as_str());
            let kw = chars_of(keyword.as_str());
            if contains_chars(n, &kw) {
                assert(keyword_hit(self@.case_sensitive, ks, n@, i as int));
                return true;
            }
            i = i + 1;
        }
        false
    }

    /// Returns `true` if the given name passes all filter rules.
    pub fn matches(&self, name: &str) -> (b: bool)
        ensures
            b == accepts(self@, name@),
    {
        let name_for_check = self.normalized(name);
        self.matches_normalized(name_for_check.as_str())
    }

    /// Returns `true` if `n`, a name already in the form in which it is
    /// compared (lowercased unless the filter is case-sensitive), passes all
    /// filter rules.
    pub fn matches_normalized(&self, n: &str) -> (b: bool)
        ensures
            b == accepts_normalized(self@, n@),
    {
        let chars = chars_of(n);
        if self.globs.len() > 0 {
            if !self.any_glob(n) {
                return false;
            }
        }
        if self.required.len() > 0 {
            if !self.any_keyword_in(&self.required, &chars) {
                return false;
            }
        }
        if self.exclude.len() > 0 {
            if self.any_keyword_in(&self.exclude, &chars) {
                return false;
            }
        }
        true
    }
}

/// The value of a filter with no patterns and no keywords.
pub open spec fn empty_filter() -> FilterView {
    FilterView {
        globs: Seq::empty(),
        required: Seq::empty(),
        exclude: Seq::empty(),
        case_sensitive: false,
    }
}

/// A new filter matches every name.
pub proof fn lemma_new_accepts_all(name: Seq<char>)
    ensures
        accepts(empty_filter(), name),
{
}

/// Adding an exclude keyword rejects exactly the names that contain it and
/// keeps the verdict on all others.
pub proof fn lemma_exclude_rejects_only_containing(f: FilterView, keyword: Seq<char>, name: Seq<char>)
    ensures
        accepts(FilterView { exclude: f.exclude.push(keyword), ..f }, name) == (accepts(f, name)
            && !contains(
            normalize(f.case_sensitive, name),
            normalize(f.case_sensitive, keyword),
        )),
{
    let g = FilterView { exclude: f.exclude.push(keyword), ..f };
    let n = normalize(f.case_sensitive, name);
    let last = f.exclude.len() as int;
    assert(keyword_hit(f.case_sensitive, g.exclude, n, last) == contains(
        n,
        normalize(f.case_sensitive, keyword),
    ));
    if any_keyword(f.case_sensitive, f.exclude, n) {
        let j = choose|j: int|
            0 <= j < f.exclude.len() && #[trigger] keyword_hit(f.case_sensitive, f.exclude, n, j);
        assert(keyword_hit(f.case_sensitive, g.exclude, n, j));
    }
    if any_keyword(f.case_sensitive, g.exclude, n) {
        let j = choose|j: int|
            0 <= j < g.exclude.len() && #[trigger] keyword_hit(f.case_sensitive, g.exclude, n, j);
        if j < last {
            assert(keyword_hit(f.case_sensitive, f.exclude, n, j));
        }
    }
}

/// Glob patterns are OR-ed: once a filter has a glob, adding another makes
/// it match exactly the names that it matched before or that the same
/// filter with the new glob alone matches.
pub proof fn lemma_globs_are_ored(f: FilterView, pattern: Seq<char>, name: Seq<char>)
    requires
        f.globs.len() > 0,
    ensures
        accepts(FilterView { globs: f.globs.push(pattern), ..f }, name) == (accepts(f, name)
            || accepts(FilterView { globs: seq![pattern], ..f }, name)),
{
    let g = f.globs.push(pattern);
    let h = seq![pattern];
    let n = normalize(f.case_sensitive, name);
    let cs = f.case_sensitive;
    let last = f.globs.len() as int;
    assert(glob_hit(cs, g, n, last) == glob_hit(cs, h, n, 0));
    if any_glob(cs, f.globs, n) {
        let j = choose|j: int| 0 <= j < f.globs.len() && #[trigger] glob_hit(cs, f.globs, n, j);
        assert(glob_hit(cs, g, n, j));
    }
    if any_glob(cs, g, n) {
        let j = choose|j: int| 0 <= j < g.len() && #[trigger] glob_hit(cs, g, n, j);
        if j < last {
            assert(glob_hit(cs, f.globs, n, j));
        } else {
            assert(glob_hit(cs, h, n, 0));
        }
    }
    if any_glob(cs, h, n) {
        assert(glob_hit(cs, g, n, last));
    }
}

/// Required keywords are OR-ed: once a filter has one, adding another makes
/// it match exactly the names that it matched before or that the same
/// filter with the new keyword alone matches.
pub proof fn lemma_required_keywords_are_ored(f: FilterView, keyword: Seq<char>, name: Seq<char>)
    requires
        f.required.len() > 0,
    ensures
        accepts(FilterView { required: f.required.push(keyword), ..f }, name) == (accepts(
            f,
            name,
        ) || accepts(FilterView { required: seq![keyword], ..f }, name)),
{
    let g = FilterView { required: f.required.push(keyword), ..f };
    let h = FilterView { required: seq![keyword], ..f };
    let n = normalize(f.case_sensitive, name);
    let cs = f.case_sensitive;
    let last = f.required.len() as int;
    assert(keyword_hit(cs, g.required, n, last) == keyword_hit(cs, h.required, n, 0));
    if any_keyword(cs, f.required, n) {
        let j = choose|j: int| 0 <= j < f.required.len() && #[trigger] keyword_hit(cs, f.required, n, j);
        assert(keyword_hit(cs, g.required, n, j));
    }
    if any_keyword(cs, g.required, n) {
        let j = choose|j: int| 0 <= j < g.required.len() && #[trigger] keyword_hit(cs, g.required, n, j);
        if j < last {
            assert(keyword_hit(cs, f.required, n, j));
        } else {
            assert(keyword_hit(cs, h.required, n, 0));
        }
    }
    if any_keyword(cs, h.required, n) {
        assert(keyword_hit(cs, g.required, n, last));
    }
}

/// Matching is case-insensitive unless asked otherwise: two names with the
/// same lowercase mapping are matched alike.
pub proof fn lemma_case_insensitive(f: FilterView, a: Seq<char>, b: Seq<char>)
    requires
        !f.case_sensitive,
        lowercase(a) == lowercase(b),
    ensures
        accepts(f, a) == accepts(f, b),
{
}

/// A filter accepts a name exactly when all three rules pass together:
/// with glob patterns, one of them matches the name; with required
/// keywords, the name contains one of them; and the name contains none of
/// the exclude keywords. Names, patterns and keywords are compared as they
/// are in case-sensitive mode and lowercased otherwise.
pub proof fn lemma_rules_are_and_ed(f: FilterView, name: Seq<char>)
    ensures
        accepts(f, name) <==> {
            let n = if f.case_sensitive {
                name
            } else {
                lowercase(name)
            };
            &&& (f.globs.len() > 0 ==> exists|j: int|
                #![trigger f.globs[j]]
                0 <= j < f.globs.len() && glob_matches(
                    if f.case_sensitive {
                        f.globs[j]
                    } else {
                        lowercase(f.globs[j])
                    },
                    n,
                ))
            &&& (f.required.len() > 0 ==> exists|j: int|
                #![trigger f.required[j]]
                0 <= j < f.required.len() && contains(
                    n,
                    if f.case_sensitive {
                        f.required[j]
                    } else {
                        lowercase(f.required[j])
                    },
                ))
            &&& (forall|j: int|
                #![trigger f.exclude[j]]
                0 <= j < f.exclude.len() ==> !contains(
                    n,
                    if f.case_sensitive {
                        f.exclude[j]
                    } else {
                        lowercase(f.exclude[j])
                    },
                ))
        },
{
    let cs = f.case_sensitive;
    let n = normalize(cs, name);
    assert forall|j: int| 0 <= j < f.globs.len() implies #[trigger] glob_hit(cs, f.globs, n, j)
        == glob_matches(if cs { f.globs[j] } else { lowercase(f.globs[j]) }, n) by {}
    assert forall|j: int| 0 <= j < f.required.len() implies #[trigger] keyword_hit(
        cs,
        f.required,
        n,
        j,
    ) == contains(n, if cs { f.required[j] } else { lowercase(f.required[j]) }) by {}
    assert forall|j: int| 0 <= j < f.exclude.len() implies #[trigger] keyword_hit(
        cs,
        f.exclude,
        n,
        j,
    ) == contains(n, if cs { f.exclude[j] } else { lowercase(f.exclude[j]) }) by {}
    if any_glob(cs, f.globs, n) {
        let j = choose|j: int| 0 <= j < f.globs.len() && #[trigger] glob_hit(cs, f.globs, n, j);
        assert(f.globs[j] == f.globs[j]);
    }
    if exists|j: int|
        #![trigger f.globs[j]]
        0 <= j < f.globs.len() && glob_matches(if cs { f.globs[j] } else { lowercase(f.globs[j]) }, n) {
        let j = choose|j: int|
            #![trigger f.globs[j]]
            0 <= j < f.globs.len() && glob_matches(if cs { f.globs[j] } else { lowercase(f.globs[j]) }, n);
        assert(glob_hit(cs, f.globs, n, j));
    }
    if any_keyword(cs, f.required, n) {
        let j = choose|j: int| 0 <= j < f.required.len() && #[trigger] keyword_hit(cs, f.required, n, j);
        assert(f.required[j] == f.required[j]);
    }
    if exists|j: int|
        #![trigger f.required[j]]
        0 <= j < f.required.len() && contains(n, if cs { f.required[j] } else { lowercase(f.required[j]) }) {
        let j = choose|j: int|
            #![trigger f.required[j]]
            0 <= j < f.required.len() && contains(n, if cs { f.required[j] } else { lowercase(f.required[j]) });
        assert(keyword_hit(cs, f.required, n, j));
    }
    if any_keyword(cs, f.exclude, n) {
        let j = choose|j: int| 0 <= j < f.exclude.len() && #[trigger] keyword_hit(cs, f.exclude, n, j);
        assert(f.exclude[j] == f.exclude[j]);
    }
    assert forall|j: int| 0 <= j < f.exclude.len() && !any_keyword(cs, f.exclude, n) implies !contains(
        n,
        if cs { #[trigger] f.exclude[j] } else { lowercase(f.exclude[j]) },
    ) by {
        if contains(n, if cs { f.exclude[j] } else { lowercase(f.exclude[j]) }) {
            assert(keyword_hit(cs, f.exclude, n, j));
        }
    }
}

/// With glob patterns, only a name that one of them matches is accepted,
/// whatever the keywords: the glob rule and the keyword rules are AND-ed.
pub proof fn lemma_globs_always_checked(f: FilterView, name: Seq<char>)
    requires
        f.globs.len() > 0,
        accepts(f, name),
    ensures
        exists|j: int|
            #![trigger f.globs[j]]
            0 <= j < f.globs.len() && glob_matches(
                if f.case_sensitive {
                    f.globs[j]
                } else {
                    lowercase(f.globs[j])
                },
                if f.case_sensitive {
                    name
                } else {
                    lowercase(name)
                },
            ),
{
    lemma_rules_are_and_ed(f, name);
}

} // verus!
