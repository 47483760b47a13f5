//! A filter that follows the famous `RUST_LOG` directive pattern.
//!
//! Log levels are controlled on a per-module basis, and by default all logging is disabled except
//! for the `error` level.
//!
//! The specification string is a comma-separated list of logging directives of the form
//! `target=level`. The target is matched as a prefix of the record's target; the level is
//! optional, and without it all logging for the target is enabled. A directive that is only a
//! level sets the global level. The pseudo levels `off` and `all` disable and enable all
//! logging; level names are matched without regard to ASCII case.
use vstd::prelude::*;

use crate::error::Error;
use crate::filter::FilterResult;
use crate::level::{Level, LevelFilter};
use crate::record::FilterCriteria;
use crate::text::{
    chars_of, eq_ignore_ascii_case, is_prefix, join, lemma_split_by_pieces, lemma_split_join, push_str, split_by, split_chars, str_eq_ignore_ascii_case,
    str_starts_with, string_from_chars, trim, trim_chars, views,
};
use vstd::utf8::encode_utf8;

verus! {

/// The default environment variable for filtering logs.
pub const DEFAULT_FILTER_ENV: &'static str = "RUST_LOG";

/// One directive: an optional target prefix and the level filter that applies under it.
#[derive(Debug)]
pub struct Directive {
    name: Option<String>,
    level: LevelFilter,
}

/// The mathematical form of a directive: its name and its level filter.
pub type DirectiveModel = (Option<Seq<char>>, LevelFilter);

impl Directive {
    pub closed spec fn model(&self) -> DirectiveModel {
        (
            match self.name {
                Some(n) => Some(n@),
                None => None,
            },
            self.level,
        )
    }

    fn duplicate(&self) -> (r: Directive)
        ensures
            r.model() == self.model(),
    {
        let name = match &self.name {
            Some(n) => Some(n.clone()),
            None => None,
        };
        Directive { name, level: self.level }
    }
}

/// The models of a sequence of directives.
pub open spec fn models(ds: Seq<Directive>) -> Seq<DirectiveModel> {
    Seq::new(ds.len(), |i: int| ds[i].model())
}

/// The level filter that a level word of the specification stands for.
pub open spec fn level_for_env(t: Seq<char>) -> Option<LevelFilter> {
    match Level::spec_parse(t) {
        Some(l) => Some(LevelFilter::MoreSevereEqual(l)),
        None => if eq_ignore_ascii_case(t, seq!['o', 'f', 'f']) {
            Some(LevelFilter::Off)
        } else if eq_ignore_ascii_case(t, seq!['a', 'l', 'l']) {
            Some(LevelFilter::All)
        } else {
            None
        },
    }
}

/// The warning for a malformed part of a specification.
pub open spec fn malformed(s: Seq<char>) -> Seq<char> {
    "malformed logging spec '"@ + s + "'"@
}

/// What one comma-separated piece of a specification gives: nothing when it is blank, a
/// directive, or the message of the error that makes it malformed.
pub open spec fn parse_piece(raw: Seq<char>) -> Option<Result<DirectiveModel, Seq<char>>> {
    let s = trim(raw);
    if s.len() == 0 {
        None
    } else {
        let parts = split_by(s, '=');
        if parts.len() > 2 {
            Some(Err(malformed(s)))
        } else {
            let part0 = trim(parts[0]);
            if parts.len() == 1 {
                match level_for_env(part0) {
                    Some(l) => Some(Ok((None, l))),
                    None => Some(Ok((Some(part0), LevelFilter::All))),
                }
            } else {
                let part1 = trim(parts[1]);
                if part1.len() == 0 {
                    Some(Ok((Some(part0), LevelFilter::All)))
                } else {
                    match level_for_env(part1) {
                        Some(l) => Some(Ok((Some(part0), l))),
                        None => Some(Err(malformed(part1))),
                    }
                }
            }
        }
    }
}

/// The directives that the pieces give, in order.
pub open spec fn directives_of(pieces: Seq<Seq<char>>) -> Seq<DirectiveModel>
    decreases pieces.len(),
{
    if pieces.len() == 0 {
        seq![]
    } else {
        let rest = directives_of(pieces.drop_last());
        match parse_piece(pieces.last()) {
            Some(Ok(d)) => rest.push(d),
            _ => rest,
        }
    }
}

/// The error messages that the pieces give, in order.
pub open spec fn errors_of(pieces: Seq<Seq<char>>) -> Seq<Seq<char>>
    decreases pieces.len(),
{
    if pieces.len() == 0 {
        seq![]
    } else {
        let rest = errors_of(pieces.drop_last());
        match parse_piece(pieces.last()) {
            Some(Err(e)) => rest.push(e),
            _ => rest,
        }
    }
}

/// The directives of a specification string.
pub open spec fn spec_directives(spec: Seq<char>) -> Seq<DirectiveModel> {
    directives_of(split_by(spec, ','))
}

/// The error messages of a specification string.
pub open spec fn spec_errors(spec: Seq<char>) -> Seq<Seq<char>> {
    errors_of(split_by(spec, ','))
}

/// The outcome of parsing a specification: its directives and its error messages.
pub struct ParseResult {
    directives: Vec<Directive>,
    errors: Vec<String>,
}

impl ParseResult {
    pub closed spec fn spec_directives(&self) -> Seq<DirectiveModel> {
        models(self.directives@)
    }

    pub closed spec fn spec_errors(&self) -> Seq<Seq<char>> {
        Seq::new(self.errors@.len(), |i: int| self.errors@[i]@)
    }
}

/// Convert a level word of the specification to a level filter.
fn from_str_for_env(text: &str) -> (r: Option<LevelFilter>)
    ensures
        r == level_for_env(text@),
{
    match Level::parse_name(text) {
        Some(level) => Some(LevelFilter::MoreSevereEqual(level)),
        None => {
            proof {
                reveal_strlit("off");
                reveal_strlit("all");
            }
            let off = "off";
            let all = "all";
            assert(off@ =~= seq!['o', 'f', 'f']);
            assert(all@ =~= seq!['a', 'l', 'l']);
            if str_eq_ignore_ascii_case(text, off) {
                Some(LevelFilter::Off)
            } else if str_eq_ignore_ascii_case(text, all) {
                Some(LevelFilter::All)
            } else {
                None
            }
        },
    }
}

fn malformed_message(s: &Vec<char>) -> (r: String)
    ensures
        r@ == malformed(s@),
{
    let mut m = "malformed logging spec '".to_string();
    let body = string_from_chars(s.as_slice());
    push_str(&mut m, body.as_str());
    push_str(&mut m, "'");
    m
}

} // verus!

verus! {

/// The model of a parsed piece.
pub open spec fn piece_model(o: Option<Result<Directive, String>>) -> Option<
    Result<DirectiveModel, Seq<char>>,
> {
    match o {
        None => None,
        Some(Ok(d)) => Some(Ok(d.model())),
        Some(Err(e)) => Some(Err(e@)),
    }
}

/// Parse one comma-separated piece of a specification.
fn parse_piece_chars(raw: &Vec<char>) -> (r: Option<Result<Directive, String>>)
    ensures
        piece_model(r) == parse_piece(raw@),
{
    let s = trim_chars(raw);
    if s.len() == 0 {
        return None;
    }
    let parts = split_chars(&s, '=');
    proof {
        crate::text::lemma_split_by_nonempty(s@, '=');
    }
    if parts.len() > 2 {
        return Some(Err(malformed_message(&s)));
    }
    assert(parts@[0]@ == split_by(s@, '=')[0]);
    let part0 = trim_chars(&parts[0]);
    let name0 = string_from_chars(part0.as_slice());
    if parts.len() == 1 {
        match from_str_for_env(name0.as_str()) {
            Some(l) => Some(Ok(Directive { name: None, level: l })),
            None => Some(Ok(Directive { name: Some(name0), level: LevelFilter::All })),
        }
    } else {
        assert(parts@[1]@ == split_by(s@, '=')[1]);
        let part1 = trim_chars(&parts[1]);
        if part1.len() == 0 {
            Some(Ok(Directive { name: Some(name0), level: LevelFilter::All }))
        } else {
            let word = string_from_chars(part1.as_slice());
            match from_str_for_env(word.as_str()) {
                Some(l) => Some(Ok(Directive { name: Some(name0), level: l })),
                None => Some(Err(malformed_message(&part1))),
            }
        }
    }
}

/// Parse a logging specification string into its directives and its error messages.
///
/// The specification string is a comma-separated list of directives, e.g. `info`,
/// `my_crate=debug,other_crate=info` or `my_target=debug,other_target=info,trace`.
pub fn parse_spec(spec: &str) -> (r: ParseResult)
    ensures
        r.spec_directives() == spec_directives(spec@),
        r.spec_errors() == spec_errors(spec@),
{
    let chars = chars_of(spec);
    let pieces = split_chars(&chars, ',');
    let ghost ps = split_by(spec@, ',');
    let mut directives: Vec<Directive> = Vec::new();
    let mut errors: Vec<String> = Vec::new();
    let n = pieces.len();
    for i in 0..n
        invariant
            n == pieces@.len(),
            views(pieces@) == ps,
            models(directives@) == directives_of(ps.take(i as int)),
            Seq::new(errors@.len(), |k: int| errors@[k]@) == errors_of(ps.take(i as int)),
    {
        let ghost before_d = directives@;
        let ghost before_e = errors@;
        assert(ps.take(i + 1).drop_last() =~= ps.take(i as int));
        assert(ps.take(i + 1).last() == pieces@[i as int]@);
        match parse_piece_chars(&pieces[i]) {
            None => {},
            Some(Ok(d)) => {
                directives.push(d);
                assert(models(directives@) =~= models(before_d).push(d.model()));
            },
            Some(Err(e)) => {
                errors.push(e);
                assert(Seq::new(errors@.len(), |k: int| errors@[k]@) =~= Seq::new(
                    before_e.len(),
                    |k: int| before_e[k]@,
                ).push(e@));
            },
        }
    }
    assert(ps.take(n as int) =~= ps);
    ParseResult { directives, errors }
}

} // verus!

verus! {

/// The position of the first directive with the given name.
pub open spec fn find_name(ds: Seq<DirectiveModel>, name: Option<Seq<char>>) -> Option<int>
    decreases ds.len(),
{
    if ds.len() == 0 {
        None
    } else if ds[0].0 == name {
        Some(0)
    } else {
        match find_name(ds.drop_first(), name) {
            Some(i) => Some(i + 1),
            None => None,
        }
    }
}

/// Insert the directive, or replace the first existing directive with the same name.
pub open spec fn upsert(ds: Seq<DirectiveModel>, d: DirectiveModel) -> Seq<DirectiveModel> {
    match find_name(ds, d.0) {
        Some(i) => ds.update(i, d),
        None => ds.push(d),
    }
}

/// Upsert each of the new directives in turn.
pub open spec fn upsert_all(ds: Seq<DirectiveModel>, news: Seq<DirectiveModel>) -> Seq<
    DirectiveModel,
>
    decreases news.len(),
{
    if news.len() == 0 {
        ds
    } else {
        upsert(upsert_all(ds, news.drop_last()), news.last())
    }
}

/// No two directives have the same name.
pub open spec fn names_unique(ds: Seq<DirectiveModel>) -> bool {
    forall|i: int, j: int| 0 <= i < ds.len() && 0 <= j < ds.len() && i != j ==> ds[i].0 != ds[j].0
}

proof fn lemma_find_name_found(ds: Seq<DirectiveModel>, name: Option<Seq<char>>, i: int)
    requires
        0 <= i < ds.len(),
        ds[i].0 == name,
        forall|j: int| 0 <= j < i ==> ds[j].0 != name,
    ensures
        find_name(ds, name) == Some(i),
    decreases i,
{
    if i > 0 {
        lemma_find_name_found(ds.drop_first(), name, i - 1);
    }
}

proof fn lemma_find_name_absent(ds: Seq<DirectiveModel>, name: Option<Seq<char>>)
    requires
        forall|j: int| 0 <= j < ds.len() ==> ds[j].0 != name,
    ensures
        find_name(ds, name) == None::<int>,
    decreases ds.len(),
{
    if ds.len() > 0 {
        lemma_find_name_absent(ds.drop_first(), name);
    }
}

proof fn lemma_find_name_spec(ds: Seq<DirectiveModel>, name: Option<Seq<char>>)
    ensures
        match find_name(ds, name) {
            Some(i) => 0 <= i < ds.len() && ds[i].0 == name && forall|j: int|
                0 <= j < i ==> ds[j].0 != name,
            None => forall|j: int| 0 <= j < ds.len() ==> ds[j].0 != name,
        },
    decreases ds.len(),
{
    if ds.len() > 0 {
        lemma_find_name_spec(ds.drop_first(), name);
        assert forall|j: int| 1 <= j < ds.len() implies ds[j] == ds.drop_first()[j - 1] by {}
    }
}

/// Upserting keeps the names of the directives distinct.
pub proof fn lemma_upsert_keeps_names_unique(ds: Seq<DirectiveModel>, d: DirectiveModel)
    requires
        names_unique(ds),
    ensures
        names_unique(upsert(ds, d)),
        upsert(ds, d).contains(d),
{
    lemma_find_name_spec(ds, d.0);
    let r = upsert(ds, d);
    match find_name(ds, d.0) {
        Some(i) => {
            assert(r[i] == d);
        },
        None => {
            assert(r[ds.len() as int] == d);
        },
    }
}

/// Upserting all directives of a list keeps the names distinct.
pub proof fn lemma_upsert_all_keeps_names_unique(ds: Seq<DirectiveModel>, news: Seq<DirectiveModel>)
    requires
        names_unique(ds),
    ensures
        names_unique(upsert_all(ds, news)),
    decreases news.len(),
{
    if news.len() > 0 {
        lemma_upsert_all_keeps_names_unique(ds, news.drop_last());
        lemma_upsert_keeps_names_unique(upsert_all(ds, news.drop_last()), news.last());
    }
}

/// The sort key of a directive: the length in bytes of its name (as a `usize`), zero without a
/// name.
pub open spec fn name_len(d: DirectiveModel) -> nat {
    match d.0 {
        Some(n) => (encode_utf8(n).len() as usize) as nat,
        None => 0,
    }
}

/// Insert a directive into a list sorted by name length, after every directive whose name is
/// not longer.
pub open spec fn insert_by_len(sorted: Seq<DirectiveModel>, d: DirectiveModel) -> Seq<DirectiveModel>
    decreases sorted.len(),
{
    if sorted.len() == 0 || name_len(sorted.last()) <= name_len(d) {
        sorted.push(d)
    } else {
        insert_by_len(sorted.drop_last(), d).push(sorted.last())
    }
}

/// The directives sorted by name length; directives with names of equal length keep their order.
pub open spec fn sort_by_len(ds: Seq<DirectiveModel>) -> Seq<DirectiveModel>
    decreases ds.len(),
{
    if ds.len() == 0 {
        seq![]
    } else {
        insert_by_len(sort_by_len(ds.drop_last()), ds.last())
    }
}

/// The directives are sorted by name length.
pub open spec fn sorted_by_len(ds: Seq<DirectiveModel>) -> bool {
    forall|i: int, j: int| 0 <= i <= j < ds.len() ==> name_len(ds[i]) <= name_len(ds[j])
}

proof fn lemma_insert_by_len_at(s: Seq<DirectiveModel>, d: DirectiveModel, p: int)
    requires
        0 <= p <= s.len(),
        forall|j: int| p <= j < s.len() ==> name_len(#[trigger] s[j]) > name_len(d),
        p == 0 || name_len(s[p - 1]) <= name_len(d),
    ensures
        insert_by_len(s, d) == s.insert(p, d),
    decreases s.len(),
{
    if s.len() == 0 {
        assert(s.insert(p, d) =~= s.push(d));
    } else if name_len(s.last()) <= name_len(d) {
        assert(p == s.len());
        assert(s.insert(p, d) =~= s.push(d));
    } else {
        lemma_insert_by_len_at(s.drop_last(), d, p);
        assert(s.drop_last().insert(p, d).push(s.last()) =~= s.insert(p, d));
    }
}

proof fn lemma_insert_by_len_props(s: Seq<DirectiveModel>, d: DirectiveModel)
    requires
        sorted_by_len(s),
    ensures
        sorted_by_len(insert_by_len(s, d)),
        insert_by_len(s, d).to_multiset() == s.to_multiset().insert(d),
        insert_by_len(s, d).len() == s.len() + 1,
    decreases s.len(),
{
    broadcast use vstd::seq_lib::group_to_multiset_ensures;
    if s.len() == 0 || name_len(s.last()) <= name_len(d) {
    } else {
        lemma_insert_by_len_props(s.drop_last(), d);
        let t = insert_by_len(s.drop_last(), d);
        assert forall|i: int, j: int| 0 <= i <= j < t.len() + 1 implies name_len(
            t.push(s.last())[i],
        ) <= name_len(t.push(s.last())[j]) by {
            if j == t.len() && i < t.len() {
                // every element of t is either d or an element of s.drop_last()
                let x = t[i];
                assert(t.to_multiset().count(x) > 0);
                assert(s.drop_last().to_multiset().insert(d).count(x) > 0);
                if x != d {
                    assert(s.drop_last().to_multiset().count(x) > 0);
                    assert(s.drop_last().contains(x));
                    let k = choose|k: int| 0 <= k < s.drop_last().len() && s.drop_last()[k] == x;
                    assert(s[k] == x);
                }
            }
        }
        assert(s.drop_last().push(s.last()) =~= s);
    }
}

/// The stable sort by name length is sorted and keeps the same directives.
pub proof fn lemma_sort_by_len_props(ds: Seq<DirectiveModel>)
    ensures
        sorted_by_len(sort_by_len(ds)),
        sort_by_len(ds).to_multiset() == ds.to_multiset(),
        sort_by_len(ds).len() == ds.len(),
    decreases ds.len(),
{
    broadcast use vstd::seq_lib::group_to_multiset_ensures;
    if ds.len() > 0 {
        lemma_sort_by_len_props(ds.drop_last());
        lemma_insert_by_len_props(sort_by_len(ds.drop_last()), ds.last());
        assert(ds.drop_last().push(ds.last()) =~= ds);
    }
}

} // verus!

verus! {

/// Whether a directive applies to a target: it has no name, or its name is a prefix of the
/// target.
pub open spec fn dir_matches(d: DirectiveModel, target: Seq<char>) -> bool {
    match d.0 {
        None => true,
        Some(n) => is_prefix(n, target),
    }
}

/// The position of the last directive that applies to the target.
pub open spec fn last_match(ds: Seq<DirectiveModel>, target: Seq<char>) -> Option<int>
    decreases ds.len(),
{
    if ds.len() == 0 {
        None
    } else if dir_matches(ds.last(), target) {
        Some(ds.len() - 1)
    } else {
        last_match(ds.drop_last(), target)
    }
}

/// The decision of the filter with the given sorted directives for a level and a target: the
/// last matching directive decides, and without one the record is rejected.
pub open spec fn spec_enabled(ds: Seq<DirectiveModel>, level: Level, target: Seq<char>) -> FilterResult {
    match last_match(ds, target) {
        Some(i) => if ds[i].1.spec_test(level) {
            FilterResult::Neutral
        } else {
            FilterResult::Reject
        },
        None => FilterResult::Reject,
    }
}

/// The directive that a builder without directives gives its filter.
pub open spec fn default_directive() -> DirectiveModel {
    (None, LevelFilter::MoreSevereEqual(Level::Error))
}

/// The directives of the filter that a builder with the given directives builds.
pub open spec fn spec_build(ds: Seq<DirectiveModel>) -> Seq<DirectiveModel> {
    if ds.len() == 0 {
        seq![default_directive()]
    } else {
        sort_by_len(ds)
    }
}

/// A filter consists of one or more comma-separated directives which match on a record's target.
///
/// Each directive may have a corresponding maximum verbosity level which enables records that
/// match. The directive with the longest name that matches the target decides.
#[derive(Debug)]
pub struct RustLogFilter {
    directives: Vec<Directive>,
}

impl RustLogFilter {
    /// The directives of the filter, sorted by name length.
    pub closed spec fn spec_directives(&self) -> Seq<DirectiveModel> {
        models(self.directives@)
    }

    fn from_directives(directives: Vec<Directive>) -> (r: RustLogFilter)
        ensures
            r.spec_directives() == sort_by_len(models(directives@)),
    {
        let n = directives.len();
        let mut sorted: Vec<Directive> = Vec::new();
        for i in 0..n
            invariant
                n == directives@.len(),
                models(sorted@) == sort_by_len(models(directives@).take(i as int)),
        {
            let d = directives[i].duplicate();
            let ghost before = sorted@;
            proof {
                lemma_sort_by_len_props(models(directives@).take(i as int));
            }
            let key = d.name_len_exec();
            let mut p = sorted.len();
            while p > 0 && sorted[p - 1].name_len_exec() > key
                invariant
                    sorted@ == before,
                    key as nat == name_len(d.model()),
                    p <= sorted@.len(),
                    forall|j: int| p <= j < sorted@.len() ==> name_len(#[trigger] models(sorted@)[j]) > name_len(d.model()),
                decreases p,
            {
                assert(models(sorted@)[p - 1] == sorted@[p - 1].model());
                p = p - 1;
            }
            proof {
                lemma_insert_by_len_at(models(before), d.model(), p as int);
                assert(models(directives@).take(i + 1).drop_last() =~= models(directives@).take(i as int));
            }
            sorted.insert(p, d);
            assert(models(sorted@) =~= models(before).insert(p as int, d.model()));
        }
        assert(models(directives@).take(n as int) =~= models(directives@));
        RustLogFilter { directives: sorted }
    }

    /// Decide whether records of the criteria's level and target pass the filter.
    ///
    /// The longest directive that matches the target decides: the record is `Neutral` when the
    /// directive's level filter admits its level and `Reject` otherwise; without a match it is
    /// rejected.
    pub fn enabled(&self, criteria: &FilterCriteria) -> (r: FilterResult)
        ensures
            r == spec_enabled(self.spec_directives(), criteria.spec_level(), criteria.spec_target()),
    {
        let level = criteria.level();
        let target = criteria.target();
        let ghost ds = self.spec_directives();
        let mut i = self.directives.len();
        assert(ds.take(i as int) =~= ds);
        while i > 0
            invariant
                i <= self.directives@.len(),
                ds == self.spec_directives(),
                level == criteria.spec_level(),
                target@ == criteria.spec_target(),
                last_match(ds.take(i as int), target@) == last_match(ds, target@),
            decreases i,
        {
            let d = &self.directives[i - 1];
            let matched = match &d.name {
                None => true,
                Some(n) => str_starts_with(target, n.as_str()),
            };
            assert(ds.take(i as int).last() == ds[i - 1]);
            assert(ds.take(i as int).drop_last() =~= ds.take(i - 1));
            assert(d.model() == ds[i - 1]);
            assert(matched == dir_matches(ds[i - 1], target@));
            if matched {
                assert(last_match(ds.take(i as int), target@) == Some(i - 1));
                assert(last_match(ds, target@) == Some(i - 1));
                assert(ds[i - 1].1 == d.level);
                return if d.level.test(level) {
                    FilterResult::Neutral
                } else {
                    FilterResult::Reject
                };
            }
            i = i - 1;
        }
        FilterResult::Reject
    }
}

fn names_equal(a: &Option<String>, b: &Option<String>) -> (r: bool)
    ensures
        r == ((match a {
            Some(n) => Some(n@),
            None => None::<Seq<char>>,
        }) == (match b {
            Some(n) => Some(n@),
            None => None::<Seq<char>>,
        })),
{
    match a {
        None => b.is_none(),
        Some(x) => match b {
            None => false,
            Some(y) => x.eq(y),
        },
    }
}

impl Directive {
    fn name_len_exec(&self) -> (r: usize)
        ensures
            r as nat == name_len(self.model()),
    {
        match &self.name {
            Some(n) => n.as_str().len(),
            None => 0,
        }
    }
}

/// A builder for [`RustLogFilter`].
///
/// It can be used to parse a set of directives from a string before building a filter.
#[derive(Debug)]
pub struct RustLogFilterBuilder {
    directives: Vec<Directive>,
}

impl Default for RustLogFilterBuilder {
    fn default() -> (r: RustLogFilterBuilder)
        ensures
            r.spec_directives() == Seq::<DirectiveModel>::empty(),
    {
        let r = RustLogFilterBuilder { directives: Vec::new() };
        assert(r.spec_directives() =~= Seq::<DirectiveModel>::empty());
        r
    }
}

impl RustLogFilterBuilder {
    /// The directives of the builder, in insertion order.
    pub closed spec fn spec_directives(&self) -> Seq<DirectiveModel> {
        models(self.directives@)
    }

    /// Initialize the filter builder from the passed specification. Malformed directives are
    /// ignored; [`spec_warnings`] lists them.
    pub fn from_spec(spec: &str) -> (r: RustLogFilterBuilder)
        ensures
            r.spec_directives() == upsert_all(seq![], spec_directives(spec@)),
    {
        let parsed = parse_spec(spec);
        RustLogFilterBuilder::from_directives(parsed.directives)
    }

    /// Initialize the filter builder from the passed specification, failing with the message of
    /// the first malformed directive.
    pub fn try_from_spec(spec: &str) -> (r: Result<RustLogFilterBuilder, Error>)
        ensures
            match r {
                Ok(b) => spec_errors(spec@).len() == 0 && b.spec_directives() == upsert_all(
                    seq![],
                    spec_directives(spec@),
                ),
                Err(e) => spec_errors(spec@).len() > 0 && e.message() == spec_errors(spec@)[0]
                    && e.context().len() == 0 && e.source_texts().len() == 0,
            },
    {
        let parsed = parse_spec(spec);
        let ParseResult { directives, errors } = parsed;
        if errors.len() > 0 {
            let first = errors[0].clone();
            return Err(Error::new(first));
        }
        Ok(RustLogFilterBuilder::from_directives(directives))
    }

    /// Initialize the filter builder from the value of an environment variable: its directives
    /// where the variable is set, none otherwise.
    pub fn from_env_value(value: Option<&str>) -> (r: RustLogFilterBuilder)
        ensures
            r.spec_directives() == (match value {
                Some(s) => upsert_all(seq![], spec_directives(s@)),
                None => Seq::<DirectiveModel>::empty(),
            }),
    {
        match value {
            Some(s) => RustLogFilterBuilder::from_spec(s),
            None => RustLogFilterBuilder::default(),
        }
    }

    /// Initialize the filter builder from the value of an environment variable, or from
    /// `default` where the variable is not set.
    pub fn from_env_value_or(value: Option<&str>, default: &str) -> (r: RustLogFilterBuilder)
        ensures
            r.spec_directives() == (match value {
                Some(s) => upsert_all(seq![], spec_directives(s@)),
                None => upsert_all(seq![], spec_directives(default@)),
            }),
    {
        match value {
            Some(s) => RustLogFilterBuilder::from_spec(s),
            None => RustLogFilterBuilder::from_spec(default),
        }
    }

    fn from_directives(directives: Vec<Directive>) -> (r: RustLogFilterBuilder)
        ensures
            r.spec_directives() == upsert_all(seq![], models(directives@)),
    {
        let mut builder = RustLogFilterBuilder::default();
        let n = directives.len();
        for i in 0..n
            invariant
                n == directives@.len(),
                builder.spec_directives() == upsert_all(seq![], models(directives@).take(i as int)),
        {
            let d = directives[i].duplicate();
            builder.upsert_directive(d);
            assert(models(directives@).take(i + 1).drop_last() =~= models(directives@).take(i as int));
        }
        assert(models(directives@).take(n as int) =~= models(directives@));
        builder
    }

    /// Consume the builder to produce a [`RustLogFilter`].
    ///
    /// If the builder has no directives configured, a default directive of the `error` level is
    /// added.
    pub fn build(self) -> (r: RustLogFilter)
        ensures
            r.spec_directives() == spec_build(self.spec_directives()),
    {
        if self.directives.len() == 0 {
            let mut ds: Vec<Directive> = Vec::new();
            ds.push(Directive { name: None, level: LevelFilter::MoreSevereEqual(Level::Error) });
            let r = RustLogFilter::from_directives(ds);
            assert(models(ds@) =~= seq![default_directive()]);
            assert(sort_by_len(seq![default_directive()]) =~= seq![default_directive()]) by {
                let one = seq![default_directive()];
                assert(one.drop_last() =~= Seq::<DirectiveModel>::empty());
                assert(sort_by_len(one.drop_last()) =~= Seq::<DirectiveModel>::empty());
                assert(insert_by_len(Seq::<DirectiveModel>::empty(), default_directive()) =~= one);
            }
            r
        } else {
            RustLogFilter::from_directives(self.directives)
        }
    }

    /// Add a directive to the filter for a specific module.
    pub fn filter_module(self, module: String, level: LevelFilter) -> (r: RustLogFilterBuilder)
        ensures
            r.spec_directives() == upsert(self.spec_directives(), (Some(module@), level)),
    {
        let mut b = self;
        b.upsert_directive(Directive { name: Some(module), level });
        b
    }

    /// Add a directive to the filter for all modules.
    pub fn filter_level(self, level: LevelFilter) -> (r: RustLogFilterBuilder)
        ensures
            r.spec_directives() == upsert(self.spec_directives(), (None, level)),
    {
        let mut b = self;
        b.upsert_directive(Directive { name: None, level });
        b
    }

    /// Insert the directive or update the existing directive with the same name.
    fn upsert_directive(&mut self, directive: Directive)
        ensures
            final(self).spec_directives() == upsert(old(self).spec_directives(), directive.model()),
    {
        let ghost ds = self.spec_directives();
        let ghost dm = directive.model();
        let n = self.directives.len();
        let mut i: usize = 0;
        while i < n
            invariant
                n == self.directives@.len(),
                ds == models(self.directives@),
                ds == old(self).spec_directives(),
                dm == directive.model(),
                i <= n,
                forall|j: int| 0 <= j < i ==> ds[j].0 != dm.0,
            decreases n - i,
        {
            let same = names_equal(&self.directives[i].name, &directive.name);
            if same {
                assert(ds[i as int] == self.directives@[i as int].model());
                assert(ds[i as int].0 == dm.0);
                proof {
                    lemma_find_name_found(ds, dm.0, i as int);
                }
                self.directives.set(i, directive);
                assert(models(self.directives@) =~= ds.update(i as int, dm));
                return;
            }
            i = i + 1;
        }
        proof {
            lemma_find_name_absent(ds, dm.0);
        }
        self.directives.push(directive);
        assert(models(self.directives@) =~= ds.push(dm));
    }
}

} // verus!

verus! {

impl RustLogFilterBuilder {
    /// The messages of the malformed directives of a specification, which `from_spec` ignores.
    pub fn parse_warnings(spec: &str) -> (r: Vec<String>)
        ensures
            r@.len() == spec_errors(spec@).len(),
            forall|i: int| 0 <= i < r@.len() ==> #[trigger] r@[i]@ == spec_errors(spec@)[i],
    {
        let parsed = parse_spec(spec);
        let ParseResult { directives: _, errors } = parsed;
        assert(forall|i: int| 0 <= i < errors@.len() ==> errors@[i]@ == parsed.spec_errors()[i]);
        errors
    }
}

/// The directive that decides is one that matches the target, and no directive that matches
/// has a longer name: in a sorted list of directives the longest match wins.
pub proof fn lemma_longest_match_wins(ds: Seq<DirectiveModel>, target: Seq<char>)
    requires
        sorted_by_len(ds),
    ensures
        match last_match(ds, target) {
            Some(i) => 0 <= i < ds.len() && dir_matches(ds[i], target) && forall|j: int|
                0 <= j < ds.len() && dir_matches(#[trigger] ds[j], target) ==> name_len(ds[j])
                    <= name_len(ds[i]),
            None => forall|j: int| 0 <= j < ds.len() ==> !dir_matches(#[trigger] ds[j], target),
        },
    decreases ds.len(),
{
    if ds.len() > 0 {
        let rest = ds.drop_last();
        assert(sorted_by_len(rest));
        lemma_longest_match_wins(rest, target);
        if !dir_matches(ds.last(), target) {
            assert forall|j: int| 0 <= j < ds.len() && dir_matches(#[trigger] ds[j], target) implies j
                < ds.len() - 1 by {}
            assert forall|j: int| 0 <= j < rest.len() implies rest[j] == ds[j] by {}
        }
    }
}

/// A filter built from a builder holds the builder's directives sorted by name length, or, for
/// a builder without directives, the single default directive.
pub proof fn lemma_build_sorted_permutation(ds: Seq<DirectiveModel>)
    ensures
        sorted_by_len(spec_build(ds)),
        ds.len() > 0 ==> spec_build(ds).to_multiset() == ds.to_multiset(),
        ds.len() == 0 ==> spec_build(ds) == seq![default_directive()],
{
    lemma_sort_by_len_props(ds);
}

/// Without any directive, a filter admits exactly the records of level `Error` or more severe.
pub proof fn lemma_default_filter_admits_errors(level: Level, target: Seq<char>)
    ensures
        spec_enabled(spec_build(seq![]), level, target) == (if level.severity() >= Level::Error.severity() {
            FilterResult::Neutral
        } else {
            FilterResult::Reject
        }),
{
    let ds = spec_build(seq![]);
    assert(ds.drop_last() =~= Seq::<DirectiveModel>::empty());
    assert(last_match(ds, target) == Some(0int));
}

/// The directives of a builder made from a specification have distinct names; a later directive
/// for a name replaces an earlier one.
pub proof fn lemma_from_spec_names_unique(spec: Seq<char>)
    ensures
        names_unique(upsert_all(seq![], spec_directives(spec))),
{
    lemma_upsert_all_keeps_names_unique(seq![], spec_directives(spec));
}

/// Upserting a directive leaves exactly one directive with its name, and that directive is the
/// new one; the other directives are kept.
pub proof fn lemma_upsert_replaces(ds: Seq<DirectiveModel>, d: DirectiveModel)
    requires
        names_unique(ds),
    ensures
        names_unique(upsert(ds, d)),
        forall|j: int| 0 <= j < upsert(ds, d).len() && (#[trigger] upsert(ds, d)[j]).0 == d.0 ==> upsert(ds, d)[j] == d,
        forall|j: int| 0 <= j < ds.len() && (#[trigger] ds[j]).0 != d.0 ==> upsert(ds, d).contains(ds[j]),
{
    lemma_upsert_keeps_names_unique(ds, d);
    lemma_find_name_spec(ds, d.0);
    let r = upsert(ds, d);
    match find_name(ds, d.0) {
        Some(i) => {
            assert forall|j: int| 0 <= j < ds.len() && (#[trigger] ds[j]).0 != d.0 implies r.contains(ds[j]) by {
                assert(r[j] == ds[j]);
            }
        },
        None => {
            assert forall|j: int| 0 <= j < ds.len() && (#[trigger] ds[j]).0 != d.0 implies r.contains(ds[j]) by {
                assert(r[j] == ds[j]);
            }
        },
    }
}

/// The pieces of a specification that are not malformed, in order.
pub open spec fn well_formed_pieces(pieces: Seq<Seq<char>>) -> Seq<Seq<char>>
    decreases pieces.len(),
{
    if pieces.len() == 0 {
        seq![]
    } else {
        let rest = well_formed_pieces(pieces.drop_last());
        match parse_piece(pieces.last()) {
            Some(Err(_)) => rest,
            _ => rest.push(pieces.last()),
        }
    }
}

/// A specification with its malformed comma-separated pieces left out.
pub open spec fn without_malformed(spec: Seq<char>) -> Seq<char> {
    join(well_formed_pieces(split_by(spec, ',')), seq![','])
}

proof fn lemma_well_formed_pieces(pieces: Seq<Seq<char>>)
    ensures
        directives_of(well_formed_pieces(pieces)) == directives_of(pieces),
        errors_of(well_formed_pieces(pieces)) == Seq::<Seq<char>>::empty(),
        forall|i: int| 0 <= i < well_formed_pieces(pieces).len() ==> exists|j: int|
            0 <= j < pieces.len() && pieces[j] == #[trigger] well_formed_pieces(pieces)[i],
    decreases pieces.len(),
{
    if pieces.len() > 0 {
        let init = pieces.drop_last();
        lemma_well_formed_pieces(init);
        let w = well_formed_pieces(pieces);
        let wi = well_formed_pieces(init);
        match parse_piece(pieces.last()) {
            Some(Err(_)) => {},
            _ => {
                assert(w.drop_last() =~= wi);
                assert(w.last() == pieces.last());
            },
        }
        assert forall|i: int| 0 <= i < w.len() implies exists|j: int|
            0 <= j < pieces.len() && pieces[j] == #[trigger] w[i] by {
            if i < wi.len() {
                assert(w[i] == wi[i]);
                let j = choose|j: int| 0 <= j < init.len() && init[j] == wi[i];
                assert(pieces[j] == init[j]);
            } else {
                assert(pieces[pieces.len() - 1] == w[i]);
            }
        }
    }
}

/// A specification read leniently is its malformed pieces left out: the specification without
/// them has no errors and the same directives, so `from_spec(spec)` holds the directives that
/// `try_from_spec` succeeds with on `without_malformed(spec)`.
pub proof fn lemma_from_spec_ignores_malformed(spec: Seq<char>)
    ensures
        spec_errors(without_malformed(spec)).len() == 0,
        spec_directives(without_malformed(spec)) == spec_directives(spec),
{
    let ps = split_by(spec, ',');
    let w = well_formed_pieces(ps);
    lemma_well_formed_pieces(ps);
    lemma_split_by_pieces(spec, ',');
    if w.len() == 0 {
        assert(without_malformed(spec) =~= Seq::<char>::empty());
        assert(split_by(Seq::<char>::empty(), ',') =~= seq![Seq::<char>::empty()]);
        let e = seq![Seq::<char>::empty()];
        assert(e.drop_last() =~= Seq::<Seq<char>>::empty());
        assert(trim(Seq::<char>::empty()).len() == 0);
        assert(directives_of(e) == directives_of(e.drop_last()));
        assert(errors_of(e) == errors_of(e.drop_last()));
    } else {
        assert forall|i: int| 0 <= i < w.len() implies !(#[trigger] w[i]).contains(',') by {
            let j = choose|j: int| 0 <= j < ps.len() && ps[j] == w[i];
            assert(!ps[j].contains(','));
        }
        lemma_split_join(w, ',');
    }
}

proof fn lemma_ignore_case_same_matches(a: Seq<char>, b: Seq<char>)
    requires
        eq_ignore_ascii_case(a, b),
    ensures
        forall|n: Seq<char>| #[trigger] eq_ignore_ascii_case(a, n) == eq_ignore_ascii_case(b, n),
{
    assert forall|n: Seq<char>| #[trigger] eq_ignore_ascii_case(a, n) == eq_ignore_ascii_case(b, n) by {
        if eq_ignore_ascii_case(a, n) {
            assert forall|i: int| 0 <= i < b.len() implies #[trigger] crate::text::ascii_lower(b[i])
                == crate::text::ascii_lower(n[i]) by {
                assert(crate::text::ascii_lower(a[i]) == crate::text::ascii_lower(b[i]));
                assert(crate::text::ascii_lower(a[i]) == crate::text::ascii_lower(n[i]));
            }
        }
        if eq_ignore_ascii_case(b, n) {
            assert forall|i: int| 0 <= i < a.len() implies #[trigger] crate::text::ascii_lower(a[i])
                == crate::text::ascii_lower(n[i]) by {
                assert(crate::text::ascii_lower(a[i]) == crate::text::ascii_lower(b[i]));
                assert(crate::text::ascii_lower(b[i]) == crate::text::ascii_lower(n[i]));
            }
        }
    }
}

/// The level word of a directive is read without regard to ASCII case: two words that differ
/// only in the case of ASCII letters stand for the same level filter (or are both malformed),
/// and every spelling of `off` and `all`, whatever its case, turns logging off or lets
/// everything through.
pub proof fn lemma_level_words_ignore_case(a: Seq<char>, b: Seq<char>)
    requires
        eq_ignore_ascii_case(a, b),
    ensures
        level_for_env(a) == level_for_env(b),
        eq_ignore_ascii_case(a, "off"@) ==> level_for_env(a) == Some(LevelFilter::Off),
        eq_ignore_ascii_case(a, "all"@) ==> level_for_env(a) == Some(LevelFilter::All),
{
    lemma_ignore_case_same_matches(a, b);
    reveal_strlit("off");
    reveal_strlit("all");
    assert("off"@ =~= seq!['o', 'f', 'f']);
    assert("all"@ =~= seq!['a', 'l', 'l']);
    if eq_ignore_ascii_case(a, seq!['a', 'l', 'l']) {
        assert(crate::text::ascii_lower(a[0]) == crate::text::ascii_lower('a'));
        assert(!eq_ignore_ascii_case(a, seq!['o', 'f', 'f'])) by {
            if eq_ignore_ascii_case(a, seq!['o', 'f', 'f']) {
                assert(crate::text::ascii_lower(a[0]) == crate::text::ascii_lower('o'));
            }
        }
    }
}

} // verus!
