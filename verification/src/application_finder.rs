//! The application resolver: given a user-supplied identifier and a snapshot
//! of process records, return exactly one matching record or a typed failure.
//!
//! The algorithm is a fixed, short-circuiting ladder:
//!
//! 1. the first record whose name equals the identifier case-insensitively
//!    wins outright;
//! 2. if the identifier holds a `.`, the first record whose bundle id equals
//!    it verbatim wins;
//! 3. every record is scored by the strongest heuristic that applies to it
//!    (exact name, name prefix, name substring, bundle substring, fuzzy
//!    similarity), candidates are ordered by descending score keeping the
//!    snapshot order among equal scores, one candidate per pid survives, and
//!    the winner must stand clear of the runner-up by an ambiguity threshold
//!    that is tighter for fuzzy matches.
//!
//! Scores are fixed-point integers scaled by [`SCORE_UNIT`]; every comparison
//! below is exact, and the whole pipeline is pinned by [`resolve_spec`].

use vstd::prelude::*;

verus! {

use vstd::arithmetic::mul::lemma_mul_inequality;
use vstd::string::StringExecFns;
use crate::errors::{PeekabooError, PeekabooResult};
use crate::models::{ApplicationData, ApplicationInfo};
use crate::similarity::{
    jaro_winkler_scaled,
    jaro_winkler_scaled_spec,
    lemma_ratio_le_unit,
    SCORE_UNIT,
};
use crate::strings::{
    chars_contains,
    chars_eq,
    chars_prefix,
    contains_at,
    is_prefix,
    lower_of,
    lowercase,
    seq_contains,
    str_chars,
    str_eq,
    string_from_chars,
    upper_of_char,
    uppercase_char,
};

/// Factor applied to a name-substring match: 0.8 in fixed point.
pub const CONTAINS_FACTOR: u64 = 800_000_000_000;

/// Factor applied to a bundle-substring match: 0.6 in fixed point.
pub const BUNDLE_FACTOR: u64 = 600_000_000_000;

/// Least similarity a fuzzy match needs: 0.7 in fixed point.
pub const FUZZY_ADMIT: u64 = 700_000_000_000;

/// Ambiguity band around the top score when it came from a fuzzy match:
/// 0.05 in fixed point.
pub const FUZZY_THRESHOLD: u64 = 50_000_000_000;

/// Ambiguity band around the top score for every other match kind: 0.1 in
/// fixed point.
pub const GENERAL_THRESHOLD: u64 = 100_000_000_000;

/// Which heuristic produced a candidate's score.
#[derive(Clone, Copy, Debug, PartialEq, Eq, Structural)]
pub enum MatchKind {
    /// Case-insensitive name equality; such a record short-circuits scoring.
    ExactName,
    /// Verbatim bundle-id equality; such a record short-circuits scoring.
    ExactBundleId,
    /// The name starts with the identifier.
    Prefix,
    /// The name holds the identifier somewhere.
    Contains,
    /// The bundle id holds the identifier somewhere.
    BundleContains,
    /// Jaro-Winkler similarity of name and identifier.
    Fuzzy,
}

/// A scored, provisional match between the identifier and one record.
#[derive(Debug)]
pub struct AppMatch {
    pub app: ApplicationData,
    pub score: u64,
    pub match_type: MatchKind,
}

impl Clone for AppMatch {
    /// An exact copy: every field of the clone equals the original's.
    fn clone(&self) -> (r: Self)
        ensures
            r == *self,
    {
        AppMatch { app: self.app.clone(), score: self.score, match_type: self.match_type }
    }
}

/// The name and pid of one candidate, as reported in an ambiguity failure.
#[derive(Debug)]
pub struct MatchDescription {
    pub name: String,
    pub pid: i32,
}

/// Why resolution failed: nothing matched, or several candidates tied.
#[derive(Debug)]
pub enum ResolveError {
    /// No record satisfied any heuristic.
    NotFound { identifier: String },
    /// Two or more candidates scored within the ambiguity threshold of the
    /// top one; each is described by name and pid.
    Ambiguous { identifier: String, candidates: Vec<MatchDescription> },
}

/// What resolution decides, stated over the mathematical pipeline: the
/// returned record, no match at all, or the band of tied candidates.
pub enum ResolveOutcome {
    Found(ApplicationData),
    NotFound,
    Ambiguous(Seq<AppMatch>),
}

/// The fuzzy rung of the ladder: a candidate only when the similarity
/// reaches 0.7, scored at nine tenths of the similarity.
pub open spec fn fuzzy_score(name_low: Seq<char>, id_low: Seq<char>) -> Option<(MatchKind, int)> {
    let jw = jaro_winkler_scaled_spec(name_low, id_low);
    if jw >= FUZZY_ADMIT as int {
        Some((MatchKind::Fuzzy, jw * 9 / 10))
    } else {
        None
    }
}

/// The score the heuristic ladder gives one record, with its kind, or `None`
/// when no heuristic applies.  `id_low` is the lowercased identifier.
pub open spec fn record_score(id_low: Seq<char>, r: ApplicationData) -> Option<(MatchKind, int)> {
    let name_low = lower_of(r.name@);
    if name_low == id_low {
        Some((MatchKind::ExactName, SCORE_UNIT as int))
    } else if is_prefix(id_low, name_low) {
        Some(
            (
                MatchKind::Prefix,
                (id_low.len() as int) * (SCORE_UNIT as int) / (name_low.len() as int),
            ),
        )
    } else if seq_contains(name_low, id_low) {
        Some(
            (
                MatchKind::Contains,
                (id_low.len() as int) * (CONTAINS_FACTOR as int) / (name_low.len() as int),
            ),
        )
    } else {
        match r.bundle_id {
            Some(b) => {
                if seq_contains(lower_of(b@), id_low) {
                    Some(
                        (
                            MatchKind::BundleContains,
                            (id_low.len() as int) * (BUNDLE_FACTOR as int) / (lower_of(
                                b@,
                            ).len() as int),
                        ),
                    )
                } else {
                    fuzzy_score(name_low, id_low)
                }
            },
            None => fuzzy_score(name_low, id_low),
        }
    }
}

/// A candidate list, ordered by descending score, with `m` placed after every
/// already-present candidate of equal or higher score: the stable descending
/// insertion.
pub open spec fn insert_desc(s: Seq<AppMatch>, m: AppMatch) -> Seq<AppMatch>
    decreases s.len(),
{
    if s.len() == 0 {
        seq![m]
    } else if s[0].score >= m.score {
        seq![s[0]] + insert_desc(s.drop_first(), m)
    } else {
        seq![m] + s
    }
}

/// The scored candidates of the first `i` records, held in descending score
/// order with snapshot order among equal scores.
pub open spec fn sorted_candidates(
    id_low: Seq<char>,
    records: Seq<ApplicationData>,
    i: int,
) -> Seq<AppMatch>
    decreases i,
{
    if i <= 0 {
        Seq::empty()
    } else {
        let p = sorted_candidates(id_low, records, i - 1);
        if 0 <= i - 1 < records.len() {
            match record_score(id_low, records[i - 1]) {
                Some((k, sc)) => insert_desc(
                    p,
                    AppMatch { app: records[i - 1], score: sc as u64, match_type: k },
                ),
                None => p,
            }
        } else {
            p
        }
    }
}

/// Some candidate among the first `i` carries this pid.
pub open spec fn contains_pid(s: Seq<AppMatch>, pid: i32) -> bool {
    exists|k: int| 0 <= k < s.len() && s[k].app.pid == pid
}

/// The first `i` candidates with later repetitions of a pid removed: the
/// first candidate seen per pid survives.
pub open spec fn dedup_by_pid(s: Seq<AppMatch>, i: int) -> Seq<AppMatch>
    decreases i,
{
    if i <= 0 {
        Seq::empty()
    } else {
        let p = dedup_by_pid(s, i - 1);
        if 0 <= i - 1 < s.len() && !contains_pid(p, s[i - 1].app.pid) {
            p.push(s[i - 1])
        } else {
            p
        }
    }
}

/// The ambiguity band for a top candidate of this kind.
pub open spec fn threshold_for(k: MatchKind) -> int {
    if k is Fuzzy {
        FUZZY_THRESHOLD as int
    } else {
        GENERAL_THRESHOLD as int
    }
}

/// Absolute difference.
pub open spec fn abs_diff(a: int, b: int) -> int {
    if a >= b {
        a - b
    } else {
        b - a
    }
}

/// Those of the first `i` candidates whose score lies strictly within `th`
/// of `top`.
pub open spec fn band_spec(s: Seq<AppMatch>, top: int, th: int, i: int) -> Seq<AppMatch>
    decreases i,
{
    if i <= 0 {
        Seq::empty()
    } else {
        let p = band_spec(s, top, th, i - 1);
        if 0 <= i - 1 < s.len() && abs_diff(s[i - 1].score as int, top) < th {
            p.push(s[i - 1])
        } else {
            p
        }
    }
}

/// What the ambiguity step decides on a candidate list: empty means no
/// match; more than one candidate inside the band means a tie; otherwise the
/// first candidate's record wins.
pub open spec fn process_spec(s: Seq<AppMatch>) -> ResolveOutcome {
    if s.len() == 0 {
        ResolveOutcome::NotFound
    } else {
        let top = s[0].score as int;
        let th = threshold_for(s[0].match_type);
        let band = band_spec(s, top, th, s.len() as int);
        if band.len() > 1 {
            ResolveOutcome::Ambiguous(band)
        } else {
            ResolveOutcome::Found(s[0].app)
        }
    }
}

/// The first of the `i` leading records whose name equals `id_low`
/// case-insensitively.
pub open spec fn first_exact_name(
    id_low: Seq<char>,
    records: Seq<ApplicationData>,
    i: int,
) -> Option<int>
    decreases i,
{
    if i <= 0 {
        None
    } else {
        match first_exact_name(id_low, records, i - 1) {
            Some(j) => Some(j),
            None => {
                if 0 <= i - 1 < records.len() && lower_of(records[i - 1].name@) == id_low {
                    Some(i - 1)
                } else {
                    None
                }
            },
        }
    }
}

/// The first of the `i` leading records whose bundle id equals the raw
/// identifier verbatim.
pub open spec fn first_exact_bundle(
    identifier: Seq<char>,
    records: Seq<ApplicationData>,
    i: int,
) -> Option<int>
    decreases i,
{
    if i <= 0 {
        None
    } else {
        match first_exact_bundle(identifier, records, i - 1) {
            Some(j) => Some(j),
            None => {
                if 0 <= i - 1 < records.len() && (match records[i - 1].bundle_id {
                    Some(b) => b@ == identifier,
                    None => false,
                }) {
                    Some(i - 1)
                } else {
                    None
                }
            },
        }
    }
}

/// The identifier holds the character `c` somewhere.
pub open spec fn contains_char(s: Seq<char>, c: char) -> bool {
    exists|k: int| 0 <= k < s.len() && s[k] == c
}

/// What the scoring pipeline (steps 3 to 5 of the ladder) decides.
pub open spec fn scored_outcome(id_low: Seq<char>, records: Seq<ApplicationData>) -> ResolveOutcome {
    let cands = sorted_candidates(id_low, records, records.len() as int);
    process_spec(dedup_by_pid(cands, cands.len() as int))
}

/// What resolution returns, for every identifier and snapshot: the whole
/// ladder of the module documentation, stated once.
pub open spec fn resolve_spec(
    identifier: Seq<char>,
    records: Seq<ApplicationData>,
) -> ResolveOutcome {
    let id_low = lower_of(identifier);
    let n = records.len() as int;
    match first_exact_name(id_low, records, n) {
        Some(i) => ResolveOutcome::Found(records[i]),
        None => {
            if contains_char(identifier, '.') {
                match first_exact_bundle(identifier, records, n) {
                    Some(i) => ResolveOutcome::Found(records[i]),
                    None => scored_outcome(id_low, records),
                }
            } else {
                scored_outcome(id_low, records)
            }
        },
    }
}

/// Each description carries exactly the name and pid of the corresponding
/// candidate.
pub open spec fn descriptions_match(ds: Seq<MatchDescription>, cs: Seq<AppMatch>) -> bool {
    ds.len() == cs.len() && forall|k: int|
        0 <= k < ds.len() ==> ds[k].name@ == cs[k].app.name@ && ds[k].pid == cs[k].app.pid
}

/// `num * unit / den`, exactly, in fixed point.
fn scale_ratio(num: usize, unit: u64, den: usize) -> (r: u64)
    requires
        1 <= den,
        num <= den,
        unit <= SCORE_UNIT,
    ensures
        r as int == num as int * unit as int / den as int,
        r <= unit,
{
    proof {
        lemma_mul_inequality(num as int, u64::MAX as int, unit as int);
        lemma_ratio_le_unit(num as int, den as int, unit as int);
    }
    ((num as u128 * unit as u128) / (den as u128)) as u64
}

/// Insertion position search: `v` stays sorted descending and `m` goes after
/// every candidate with an equal or higher score.
fn insert_match(v: &mut Vec<AppMatch>, m: AppMatch)
    ensures
        final(v)@ == insert_desc(old(v)@, m),
{
    let mut p: usize = 0;
    loop
        invariant
            v@ == old(v)@,
            p <= v@.len(),
            forall|k: int| 0 <= k < p ==> v@[k].score >= m.score,
        ensures
            v@ == old(v)@,
            p <= v@.len(),
            forall|k: int| 0 <= k < p ==> v@[k].score >= m.score,
            p < v@.len() ==> v@[p as int].score < m.score,
        decreases v@.len() - p,
    {
        if p >= v.len() {
            break ;
        }
        if v[p].score < m.score {
            break ;
        }
        p += 1;
    }
    proof {
        lemma_insert_desc_at(v@, m, p as int);
    }
    v.insert(p, m);
}

/// The stable descending insertion lands exactly at the first position whose
/// score is below the new candidate's.
proof fn lemma_insert_desc_at(s: Seq<AppMatch>, m: AppMatch, p: int)
    requires
        0 <= p <= s.len(),
        forall|k: int| 0 <= k < p ==> s[k].score >= m.score,
        p < s.len() ==> s[p].score < m.score,
    ensures
        insert_desc(s, m) == s.insert(p, m),
    decreases p,
{
    if p == 0 {
        if s.len() == 0 {
            assert(insert_desc(s, m) =~= s.insert(0, m));
        } else {
            assert(s[0].score < m.score);
            assert(insert_desc(s, m) =~= s.insert(0, m));
        }
    } else {
        assert(s[0].score >= m.score);
        lemma_insert_desc_at(s.drop_first(), m, p - 1);
        assert(insert_desc(s, m) == seq![s[0]] + s.drop_first().insert(p - 1, m));
        assert(seq![s[0]] + s.drop_first().insert(p - 1, m) =~= s.insert(p, m));
    }
}

/// If the first `i` records show no exact name match and record `i` does
/// match, then record `i` is the first match of any longer prefix.
proof fn lemma_first_name_found(
    id_low: Seq<char>,
    records: Seq<ApplicationData>,
    i: int,
    n: int,
)
    requires
        0 <= i < records.len(),
        first_exact_name(id_low, records, i) is None,
        lower_of(records[i].name@) == id_low,
        i < n <= records.len(),
    ensures
        first_exact_name(id_low, records, n) == Some(i),
    decreases n,
{
    if n > i + 1 {
        lemma_first_name_found(id_low, records, i, n - 1);
    }
}

/// The bundle-id analogue of [`lemma_first_name_found`].
proof fn lemma_first_bundle_found(
    identifier: Seq<char>,
    records: Seq<ApplicationData>,
    i: int,
    n: int,
)
    requires
        0 <= i < records.len(),
        first_exact_bundle(identifier, records, i) is None,
        records[i].bundle_id is Some,
        records[i].bundle_id->0@ == identifier,
        i < n <= records.len(),
    ensures
        first_exact_bundle(identifier, records, n) == Some(i),
    decreases n,
{
    if n > i + 1 {
        lemma_first_bundle_found(identifier, records, i, n - 1);
    }
}

/// Resolves identifiers against process snapshots.  The finder itself holds
/// no state: each call works on the snapshot it is handed.
pub struct ApplicationFinder {}

impl ApplicationFinder {
    /// A fresh finder.
    pub fn new() -> (r: ApplicationFinder) {
        ApplicationFinder {  }
    }

    /// Score every record of the snapshot against the identifier and hand
    /// back all candidates, strongest first, snapshot order among ties.
    pub fn find_all_matches(&self, identifier: &str, apps: &Vec<ApplicationData>) -> (r: Vec<
        AppMatch,
    >)
        ensures
            r@ == sorted_candidates(lower_of(identifier@), apps@, apps@.len() as int),
    {
        let id_low_string = lowercase(identifier);
        let id_low = str_chars(id_low_string.as_str());
        let ghost idl = lower_of(identifier@);

        let mut results: Vec<AppMatch> = Vec::new();
        let n = apps.len();
        let mut i: usize = 0;
        while i < n
            invariant
                n == apps@.len(),
                i <= n,
                id_low@ == idl,
                results@ == sorted_candidates(idl, apps@, i as int),
            decreases n - i,
        {
            let app = &apps[i];
            let name_low_string = lowercase(app.name.as_str());
            let name_low = str_chars(name_low_string.as_str());
            assert(name_low@ == lower_of(app.name@));
            let li = id_low.len();
            let ln = name_low.len();

            if chars_eq(&name_low, &id_low) {
                let m = AppMatch {
                    app: app.clone(),
                    score: SCORE_UNIT,
                    match_type: MatchKind::ExactName,
                };
                assert(record_score(idl, apps@[i as int]) == Some(
                    (MatchKind::ExactName, SCORE_UNIT as int),
                ));
                insert_match(&mut results, m);
            } else if chars_prefix(&id_low, &name_low) {
                proof {
                    if ln == 0 {
                        assert(name_low@ =~= id_low@);
                    }
                }
                let score = scale_ratio(li, SCORE_UNIT, ln);
                let m = AppMatch { app: app.clone(), score, match_type: MatchKind::Prefix };
                assert(record_score(idl, apps@[i as int]) == Some(
                    (MatchKind::Prefix, score as int),
                ));
                insert_match(&mut results, m);
            } else if chars_contains(&name_low, &id_low) {
                proof {
                    let wi = choose|wi: int| contains_at(name_low@, id_low@, wi);
                    assert(contains_at(name_low@, id_low@, wi));
                    if ln == 0 {
                        assert(name_low@ =~= id_low@);
                    }
                }
                let score = scale_ratio(li, CONTAINS_FACTOR, ln);
                let m = AppMatch { app: app.clone(), score, match_type: MatchKind::Contains };
                assert(record_score(idl, apps@[i as int]) == Some(
                    (MatchKind::Contains, score as int),
                ));
                insert_match(&mut results, m);
            } else {
                let mut pushed = false;
                match &app.bundle_id {
                    Some(b) => {
                        let bundle_low_string = lowercase(b.as_str());
                        let bundle_low = str_chars(bundle_low_string.as_str());
                        if chars_contains(&bundle_low, &id_low) {
                            proof {
                                let wi = choose|wi: int|
                                    contains_at(bundle_low@, id_low@, wi);
                                assert(contains_at(bundle_low@, id_low@, wi));
                                if bundle_low.len() == 0 {
                                    assert(id_low@.len() == 0);
                                    assert(id_low@ =~= name_low@.subrange(0, 0));
                                    assert(is_prefix(id_low@, name_low@));
                                }
                            }
                            let score = scale_ratio(li, BUNDLE_FACTOR, bundle_low.len());
                            let m = AppMatch {
                                app: app.clone(),
                                score,
                                match_type: MatchKind::BundleContains,
                            };
                            assert(record_score(idl, apps@[i as int]) == Some(
                                (MatchKind::BundleContains, score as int),
                            ));
                            insert_match(&mut results, m);
                            pushed = true;
                        }
                    },
                    None => {},
                }
                if !pushed {
                    let sim = jaro_winkler_scaled(&name_low, &id_low);
                    if sim >= FUZZY_ADMIT {
                        let score = sim * 9 / 10;
                        let m = AppMatch { app: app.clone(), score, match_type: MatchKind::Fuzzy };
                        assert(record_score(idl, apps@[i as int]) == Some(
                            (MatchKind::Fuzzy, score as int),
                        ));
                        insert_match(&mut results, m);
                    } else {
                        assert(record_score(idl, apps@[i as int]) is None);
                    }
                }
            }
            i += 1;
        }
        results
    }

    /// Keep the first candidate seen for each pid and drop the rest.
    pub fn remove_duplicate_matches(&self, found: Vec<AppMatch>) -> (r: Vec<AppMatch>)
        ensures
            r@ == dedup_by_pid(found@, found@.len() as int),
    {
        let mut unique: Vec<AppMatch> = Vec::new();
        let n = found.len();
        let mut i: usize = 0;
        while i < n
            invariant
                n == found@.len(),
                i <= n,
                unique@ == dedup_by_pid(found@, i as int),
            decreases n - i,
        {
            if !vec_contains_pid(&unique, found[i].app.pid) {
                unique.push(found[i].clone());
            }
            i += 1;
        }
        unique
    }

    /// Decide the outcome on a deduplicated candidate list: empty means
    /// nothing matched; several candidates within the ambiguity band of the
    /// top score mean a tie, reported with each tied candidate's name and
    /// pid; otherwise the first candidate wins.
    pub fn process_match_results(
        &self,
        found: Vec<AppMatch>,
        identifier: &str,
    ) -> (r: Result<ApplicationData, ResolveError>)
        ensures
            match r {
                Ok(app) => process_spec(found@) == ResolveOutcome::Found(app),
                Err(ResolveError::NotFound { identifier: id2 }) => process_spec(found@)
                    is NotFound && id2@ == identifier@,
                Err(ResolveError::Ambiguous { identifier: id2, candidates }) => id2@
                    == identifier@ && (process_spec(found@) matches ResolveOutcome::Ambiguous(band)
                    && descriptions_match(candidates@, band)),
            },
    {
        if found.len() == 0 {
            return Err(ResolveError::NotFound { identifier: String::from_str(identifier) });
        }
        let top = found[0].score;
        let th: u64 = match found[0].match_type {
            MatchKind::Fuzzy => FUZZY_THRESHOLD,
            _ => GENERAL_THRESHOLD,
        };

        let n = found.len();
        let mut band: Vec<AppMatch> = Vec::new();
        let mut i: usize = 0;
        while i < n
            invariant
                n == found@.len(),
                n >= 1,
                i <= n,
                top == found@[0].score,
                th as int == threshold_for(found@[0].match_type),
                band@ == band_spec(found@, top as int, th as int, i as int),
            decreases n - i,
        {
            let s = found[i].score;
            let diff = if s >= top {
                s - top
            } else {
                top - s
            };
            if diff < th {
                band.push(found[i].clone());
            }
            i += 1;
        }

        if band.len() > 1 {
            let mut descriptions: Vec<MatchDescription> = Vec::new();
            let bn = band.len();
            let mut k: usize = 0;
            while k < bn
                invariant
                    bn == band@.len(),
                    k <= bn,
                    descriptions@.len() == k,
                    forall|j: int|
                        0 <= j < k ==> descriptions@[j].name@ == band@[j].app.name@
                            && descriptions@[j].pid == band@[j].app.pid,
                decreases bn - k,
            {
                descriptions.push(
                    MatchDescription { name: band[k].app.name.clone(), pid: band[k].app.pid },
                );
                k += 1;
            }
            Err(
                ResolveError::Ambiguous {
                    identifier: String::from_str(identifier),
                    candidates: descriptions,
                },
            )
        } else {
            Ok(found[0].app.clone())
        }
    }
}

/// The rendered form of one tied candidate: its name, then its pid.
pub open spec fn description_text(name: Seq<char>, pid: i32) -> Seq<char> {
    name + " (PID: "@ + crate::strings::int_str(pid as int) + ")"@
}

/// The tied candidates' descriptions joined with commas, over the first `i`.
pub open spec fn joined_descriptions(cs: Seq<AppMatch>, i: int) -> Seq<char>
    decreases i,
{
    if i <= 0 {
        Seq::empty()
    } else if i == 1 {
        description_text(cs[0].app.name@, cs[0].app.pid)
    } else {
        joined_descriptions(cs, i - 1) + ", "@ + description_text(
            cs[i - 1].app.name@,
            cs[i - 1].app.pid,
        )
    }
}

/// The message reported when resolution ties: the identifier, then every
/// tied candidate with its pid.
pub open spec fn ambiguous_message_spec(identifier: Seq<char>, band: Seq<AppMatch>) -> Seq<char> {
    "Multiple applications match identifier '"@ + identifier
        + "'. Please be more specific. Matches found: "@ + joined_descriptions(
        band,
        band.len() as int,
    )
}

impl ApplicationFinder {
    /// Resolve the identifier against the snapshot and report failures as
    /// the tool's own errors: an unknown identifier as [`PeekabooError::AppNotFound`],
    /// a tie as [`PeekabooError::InvalidArgument`] whose message lists every
    /// tied candidate by name and pid.
    pub fn find_application(&self, identifier: &str, apps: &Vec<ApplicationData>) -> (r:
        PeekabooResult<ApplicationData>)
        ensures
            match r {
                Ok(app) => resolve_spec(identifier@, apps@) == ResolveOutcome::Found(app),
                Err(PeekabooError::AppNotFound { identifier: id2 }) => resolve_spec(
                    identifier@,
                    apps@,
                ) is NotFound && id2@ == identifier@,
                Err(PeekabooError::InvalidArgument { message }) => (resolve_spec(
                    identifier@,
                    apps@,
                ) matches ResolveOutcome::Ambiguous(band) && message@ == ambiguous_message_spec(
                    identifier@,
                    band,
                )),
                Err(_) => false,
            },
    {
        match resolve(identifier, apps) {
            Ok(app) => Ok(app),
            Err(ResolveError::NotFound { identifier: id2 }) => Err(
                PeekabooError::AppNotFound { identifier: id2 },
            ),
            Err(ResolveError::Ambiguous { identifier: id2, candidates }) => {
                let mut joined = String::new();
                let n = candidates.len();
                let ghost band = choose|band: Seq<AppMatch>|
                    resolve_spec(identifier@, apps@) == ResolveOutcome::Ambiguous(band)
                        && descriptions_match(candidates@, band);
                let mut k: usize = 0;
                while k < n
                    invariant
                        n == candidates@.len(),
                        k <= n,
                        n == band.len(),
                        descriptions_match(candidates@, band),
                        joined@ == joined_descriptions(band, k as int),
                    decreases n - k,
                {
                    if k > 0 {
                        joined.append(", ");
                    }
                    joined.append(candidates[k].name.as_str());
                    joined.append(" (PID: ");
                    let pid_text = crate::strings::i32_to_string(candidates[k].pid);
                    joined.append(pid_text.as_str());
                    joined.append(")");
                    proof {
                        assert(joined@ =~= joined_descriptions(band, k as int + 1));
                    }
                    k += 1;
                }
                let mut message = String::from_str("Multiple applications match identifier '");
                message.append(identifier);
                message.append("'. Please be more specific. Matches found: ");
                message.append(joined.as_str());
                proof {
                    assert(message@ =~= ambiguous_message_spec(identifier@, band));
                }
                Err(PeekabooError::InvalidArgument { message })
            },
        }
    }
}

/// Some already-kept candidate carries this pid.
fn vec_contains_pid(v: &Vec<AppMatch>, pid: i32) -> (r: bool)
    ensures
        r == contains_pid(v@, pid),
{
    let n = v.len();
    let mut i: usize = 0;
    while i < n
        invariant
            n == v@.len(),
            i <= n,
            forall|k: int| 0 <= k < i ==> v@[k].app.pid != pid,
        decreases n - i,
    {
        if v[i].app.pid == pid {
            return true;
        }
        i += 1;
    }
    false
}

/// Resolve `identifier` against the snapshot: exactly one record, or a typed
/// failure saying why none or too many matched.  The outcome is precisely
/// [`resolve_spec`] of the inputs.
pub fn resolve(identifier: &str, records: &Vec<ApplicationData>) -> (r: Result<
    ApplicationData,
    ResolveError,
>)
    ensures
        match r {
            Ok(app) => resolve_spec(identifier@, records@) == ResolveOutcome::Found(app),
            Err(ResolveError::NotFound { identifier: id2 }) => resolve_spec(identifier@, records@)
                is NotFound && id2@ == identifier@,
            Err(ResolveError::Ambiguous { identifier: id2, candidates }) => id2@ == identifier@
                && (resolve_spec(identifier@, records@) matches ResolveOutcome::Ambiguous(band)
                && descriptions_match(candidates@, band)),
        },
{
    let id_low_string = lowercase(identifier);
    let id_low = str_chars(id_low_string.as_str());
    let ghost idl = lower_of(identifier@);
    let n = records.len();

    let mut i: usize = 0;
    while i < n
        invariant
            n == records@.len(),
            i <= n,
            id_low@ == idl,
            idl == lower_of(identifier@),
            first_exact_name(idl, records@, i as int) is None,
        decreases n - i,
    {
        let name_low_string = lowercase(records[i].name.as_str());
        let name_low = str_chars(name_low_string.as_str());
        if chars_eq(&name_low, &id_low) {
            proof {
                lemma_first_name_found(idl, records@, i as int, records@.len() as int);
                assert(resolve_spec(identifier@, records@) == ResolveOutcome::Found(
                    records@[i as int],
                ));
            }
            return Ok(records[i].clone());
        }
        i += 1;
    }

    let id_raw = str_chars(identifier);
    if chars_has(&id_raw, '.') {
        assert(contains_char(identifier@, '.'));
        let mut i: usize = 0;
        while i < n
            invariant
                n == records@.len(),
                i <= n,
                id_raw@ == identifier@,
                idl == lower_of(identifier@),
                contains_char(identifier@, '.'),
                first_exact_name(idl, records@, records@.len() as int) is None,
                first_exact_bundle(identifier@, records@, i as int) is None,
            decreases n - i,
        {
            let hit = match &records[i].bundle_id {
                Some(b) => str_eq(b.as_str(), identifier),
                None => false,
            };
            if hit {
                proof {
                    lemma_first_bundle_found(
                        identifier@,
                        records@,
                        i as int,
                        records@.len() as int,
                    );
                    assert(resolve_spec(identifier@, records@) == ResolveOutcome::Found(
                        records@[i as int],
                    ));
                }
                return Ok(records[i].clone());
            }
            i += 1;
        }
    } else {
        assert(!contains_char(identifier@, '.'));
    }

    let finder = ApplicationFinder::new();
    let found = finder.find_all_matches(identifier, records);
    let unique = finder.remove_duplicate_matches(found);
    finder.process_match_results(unique, identifier)
}

/// Whenever some of the first `n` records matches the identifier's lowered
/// name, the scan finds one.
proof fn lemma_first_name_exists(
    id_low: Seq<char>,
    records: Seq<ApplicationData>,
    i: int,
    n: int,
)
    requires
        0 <= i < records.len(),
        lower_of(records[i].name@) == id_low,
        i < n <= records.len(),
    ensures
        first_exact_name(id_low, records, n) is Some,
    decreases n,
{
    if n > i + 1 {
        lemma_first_name_exists(id_low, records, i, n - 1);
    }
}

/// Whatever index the name scan returns lies in range and matches.
proof fn lemma_first_name_props(id_low: Seq<char>, records: Seq<ApplicationData>, n: int)
    ensures
        match first_exact_name(id_low, records, n) {
            Some(j) => 0 <= j < records.len() && j < n && lower_of(records[j].name@) == id_low,
            None => true,
        },
    decreases n,
{
    if n > 0 {
        lemma_first_name_props(id_low, records, n - 1);
    }
}

/// When no record's lowered name equals the identifier's, the scan fails.
proof fn lemma_first_name_none(id_low: Seq<char>, records: Seq<ApplicationData>, n: int)
    requires
        forall|j: int| 0 <= j < records.len() ==> lower_of(records[j].name@) != id_low,
    ensures
        first_exact_name(id_low, records, n) is None,
    decreases n,
{
    if n > 0 {
        lemma_first_name_none(id_low, records, n - 1);
    }
}

/// Whatever index the bundle scan returns lies in range and matches
/// verbatim.
proof fn lemma_first_bundle_props(identifier: Seq<char>, records: Seq<ApplicationData>, n: int)
    ensures
        match first_exact_bundle(identifier, records, n) {
            Some(j) => 0 <= j < records.len() && j < n && records[j].bundle_id is Some
                && records[j].bundle_id->0@ == identifier,
            None => true,
        },
    decreases n,
{
    if n > 0 {
        lemma_first_bundle_props(identifier, records, n - 1);
    }
}

/// Whenever some of the first `n` records carries the identifier as its
/// bundle id, the scan finds one.
proof fn lemma_first_bundle_exists(
    identifier: Seq<char>,
    records: Seq<ApplicationData>,
    i: int,
    n: int,
)
    requires
        0 <= i < records.len(),
        records[i].bundle_id is Some,
        records[i].bundle_id->0@ == identifier,
        i < n <= records.len(),
    ensures
        first_exact_bundle(identifier, records, n) is Some,
    decreases n,
{
    if n > i + 1 {
        lemma_first_bundle_exists(identifier, records, i, n - 1);
    }
}

/// Exact name precedence: when some record's name equals the identifier
/// case-insensitively, resolution returns such a record outright, whatever
/// the other records score.
pub proof fn lemma_exact_name_precedence(
    identifier: Seq<char>,
    records: Seq<ApplicationData>,
    i: int,
)
    requires
        0 <= i < records.len(),
        lower_of(records[i].name@) == lower_of(identifier),
    ensures
        (resolve_spec(identifier, records) matches ResolveOutcome::Found(app) && lower_of(
            app.name@,
        ) == lower_of(identifier)),
{
    lemma_first_name_exists(lower_of(identifier), records, i, records.len() as int);
    lemma_first_name_props(lower_of(identifier), records, records.len() as int);
}

/// Exact bundle precedence: when the identifier holds a dot, no record's
/// name equals it case-insensitively, and exactly one record's bundle id
/// equals it verbatim, that record is returned, whatever the other records
/// score.  (With a case-insensitive name match present, that earlier rung
/// would win instead.)
pub proof fn lemma_exact_bundle_precedence(
    identifier: Seq<char>,
    records: Seq<ApplicationData>,
    i: int,
)
    requires
        contains_char(identifier, '.'),
        0 <= i < records.len(),
        records[i].bundle_id is Some,
        records[i].bundle_id->0@ == identifier,
        forall|j: int|
            0 <= j < records.len() && j != i ==> !(records[j].bundle_id is Some
                && records[j].bundle_id->0@ == identifier),
        forall|j: int|
            0 <= j < records.len() ==> lower_of(records[j].name@) != lower_of(identifier),
    ensures
        resolve_spec(identifier, records) == ResolveOutcome::Found(records[i]),
{
    lemma_first_name_none(lower_of(identifier), records, records.len() as int);
    lemma_first_bundle_exists(identifier, records, i, records.len() as int);
    lemma_first_bundle_props(identifier, records, records.len() as int);
}

/// Deduplication by pid: the surviving candidate list never holds two
/// candidates with one pid, whichever heuristics produced them.
pub proof fn lemma_dedup_unique_pids(s: Seq<AppMatch>, i: int)
    ensures
        forall|a: int, b: int|
            0 <= a < b < dedup_by_pid(s, i).len() ==> dedup_by_pid(s, i)[a].app.pid != dedup_by_pid(
                s,
                i,
            )[b].app.pid,
    decreases i,
{
    if i > 0 {
        lemma_dedup_unique_pids(s, i - 1);
        let p = dedup_by_pid(s, i - 1);
        let d = dedup_by_pid(s, i);
        if d.len() == p.len() + 1 {
            assert(forall|a: int| 0 <= a < p.len() ==> d[a] == p[a]);
            assert(!contains_pid(p, s[i - 1].app.pid));
            assert(forall|a: int| 0 <= a < p.len() ==> p[a].app.pid != s[i - 1].app.pid);
        }
    }
}

/// Monotonic scoring: on one identifier/name length pair the prefix score
/// never exceeds 1, and strictly beats the substring score, which carries
/// the 0.8 factor.  The strict part needs the ratio to clear the fixed-point
/// granularity: an identifier at least one two-hundred-billionth of the name's
/// length, which every string of this world satisfies.
pub proof fn lemma_prefix_beats_contains(li: int, ln: int)
    requires
        1 <= li <= ln,
        ln <= 200_000_000_000 * li,
    ensures
        li * (SCORE_UNIT as int) / ln <= SCORE_UNIT as int,
        li * (SCORE_UNIT as int) / ln > li * (CONTAINS_FACTOR as int) / ln,
{
    lemma_ratio_le_unit(li, ln, SCORE_UNIT as int);
    let b = li * (CONTAINS_FACTOR as int);
    let c = li * 200_000_000_000;
    assert(li * (SCORE_UNIT as int) == li * (CONTAINS_FACTOR as int) + li * 200_000_000_000);
    assert(b >= 0);
    assert(c >= ln);
    lemma_div_sum_lower(b, c, ln);
    assert(c / ln >= 1) by {
        vstd::arithmetic::div_mod::lemma_div_is_ordered(ln, c, ln);
        vstd::arithmetic::div_mod::lemma_div_by_self(ln);
    }
}

/// `(b + c) / d >= b/d + c/d` for non-negative `b`, `c` and positive `d`.
proof fn lemma_div_sum_lower(b: int, c: int, d: int)
    requires
        b >= 0,
        c >= 0,
        d >= 1,
    ensures
        (b + c) / d >= b / d + c / d,
{
    vstd::arithmetic::div_mod::lemma_fundamental_div_mod(b, d);
    vstd::arithmetic::div_mod::lemma_fundamental_div_mod(c, d);
    vstd::arithmetic::div_mod::lemma_div_multiples_vanish(b / d + c / d, d);
    assert(d * (b / d) + d * (c / d) == d * (b / d + c / d)) by (nonlinear_arith);
    assert(b + c >= d * (b / d + c / d));
    vstd::arithmetic::div_mod::lemma_div_is_ordered(d * (b / d + c / d), b + c, d);
}

/// The candidate scores never rise along the list.
pub open spec fn sorted_desc(s: Seq<AppMatch>) -> bool {
    forall|a: int, b: int| 0 <= a <= b < s.len() ==> s[a].score >= s[b].score
}

/// The stable descending insertion keeps the list descending.
proof fn lemma_insert_desc_sorted(s: Seq<AppMatch>, m: AppMatch)
    requires
        sorted_desc(s),
    ensures
        sorted_desc(insert_desc(s, m)),
    decreases s.len(),
{
    if s.len() == 0 {
    } else if s[0].score >= m.score {
        assert(sorted_desc(s.drop_first()));
        lemma_insert_desc_sorted(s.drop_first(), m);
        let r = seq![s[0]] + insert_desc(s.drop_first(), m);
        lemma_insert_desc_elements(s.drop_first(), m);
        assert forall|a: int, b: int| 0 <= a <= b < r.len() implies r[a].score >= r[b].score by {
            let inner = insert_desc(s.drop_first(), m);
            if a == 0 && b > 0 {
                assert(r[b] == inner[b - 1]);
                if inner[b - 1] != m {
                    let j = choose|j: int|
                        0 <= j < s.drop_first().len() && inner[b - 1] == s.drop_first()[j];
                    assert(s.drop_first()[j] == s[j + 1]);
                }
            } else if a > 0 {
                assert(r[a] == inner[a - 1]);
                assert(r[b] == inner[b - 1]);
            }
        }
    } else {
    }
}

/// Everything in an insertion's result is the new candidate or one of the
/// old ones.
proof fn lemma_insert_desc_elements(s: Seq<AppMatch>, m: AppMatch)
    ensures
        forall|k: int|
            0 <= k < insert_desc(s, m).len() ==> insert_desc(s, m)[k] == m || exists|j: int|
                0 <= j < s.len() && insert_desc(s, m)[k] == s[j],
    decreases s.len(),
{
    if s.len() == 0 {
    } else if s[0].score >= m.score {
        lemma_insert_desc_elements(s.drop_first(), m);
        let r = seq![s[0]] + insert_desc(s.drop_first(), m);
        assert forall|k: int|
            0 <= k < r.len() implies r[k] == m || exists|j: int|
                0 <= j < s.len() && r[k] == s[j] by {
            if k == 0 {
                assert(r[0] == s[0]);
            } else {
                let inner = insert_desc(s.drop_first(), m);
                assert(r[k] == inner[k - 1]);
                if inner[k - 1] != m {
                    let j = choose|j: int|
                        0 <= j < s.drop_first().len() && inner[k - 1] == s.drop_first()[j];
                    assert(s.drop_first()[j] == s[j + 1]);
                }
            }
        }
    } else {
    }
}

/// Ordering of the candidate list: what `find_all_matches` hands back is
/// sorted by descending score, whatever the identifier and snapshot.
pub proof fn lemma_candidates_sorted(id_low: Seq<char>, records: Seq<ApplicationData>, i: int)
    ensures
        sorted_desc(sorted_candidates(id_low, records, i)),
    decreases i,
{
    if i > 0 {
        lemma_candidates_sorted(id_low, records, i - 1);
        if 0 <= i - 1 < records.len() {
            match record_score(id_low, records[i - 1]) {
                Some((k, sc)) => {
                    lemma_insert_desc_sorted(
                        sorted_candidates(id_low, records, i - 1),
                        AppMatch { app: records[i - 1], score: sc as u64, match_type: k },
                    );
                },
                None => {},
            }
        }
    }
}

/// The ambiguity band differs by kind: it is strictly tighter around a
/// fuzzy top candidate than around one of any other kind.
pub proof fn lemma_fuzzy_band_is_tighter(k: MatchKind)
    ensures
        !(k is Fuzzy) ==> threshold_for(MatchKind::Fuzzy) < threshold_for(k),
        threshold_for(MatchKind::Fuzzy) == FUZZY_THRESHOLD as int,
{
}

/// Inserting a candidate lengthens the list by one.
proof fn lemma_insert_desc_len(s: Seq<AppMatch>, m: AppMatch)
    ensures
        insert_desc(s, m).len() == s.len() + 1,
    decreases s.len(),
{
    if s.len() > 0 && s[0].score >= m.score {
        lemma_insert_desc_len(s.drop_first(), m);
    }
}

/// The candidate list is empty exactly when no record scores.
proof fn lemma_candidates_empty(id_low: Seq<char>, records: Seq<ApplicationData>, i: int)
    ensures
        (sorted_candidates(id_low, records, i).len() == 0) <==> (forall|j: int|
            0 <= j < i && j < records.len() ==> (#[trigger] record_score(id_low, records[j]))
                is None),
    decreases i,
{
    if i > 0 {
        lemma_candidates_empty(id_low, records, i - 1);
        if 0 <= i - 1 < records.len() {
            match record_score(id_low, records[i - 1]) {
                Some((k, sc)) => {
                    lemma_insert_desc_len(
                        sorted_candidates(id_low, records, i - 1),
                        AppMatch { app: records[i - 1], score: sc as u64, match_type: k },
                    );
                },
                None => {},
            }
        }
    }
}

/// Deduplication keeps a non-empty list non-empty.
proof fn lemma_dedup_nonempty(s: Seq<AppMatch>, i: int)
    requires
        i >= 1,
        s.len() >= 1,
    ensures
        dedup_by_pid(s, i).len() >= 1,
    decreases i,
{
    if i > 1 {
        lemma_dedup_nonempty(s, i - 1);
    } else {
        assert(!contains_pid(dedup_by_pid(s, 0), s[0].app.pid));
    }
}

/// When nothing is found, nothing matched: resolution reports `NotFound`
/// exactly when no record's name equals the identifier case-insensitively,
/// no bundle id equals a dotted identifier verbatim, and no heuristic
/// accepts any record.
pub proof fn lemma_not_found_characterised(identifier: Seq<char>, records: Seq<ApplicationData>)
    ensures
        resolve_spec(identifier, records) is NotFound <==> {
            let id_low = lower_of(identifier);
            let n = records.len() as int;
            &&& first_exact_name(id_low, records, n) is None
            &&& (contains_char(identifier, '.') ==> first_exact_bundle(identifier, records, n)
                is None)
            &&& forall|j: int|
                0 <= j < records.len() ==> (#[trigger] record_score(id_low, records[j])) is None
        },
{
    let id_low = lower_of(identifier);
    let n = records.len() as int;
    lemma_candidates_empty(id_low, records, n);
    let cands = sorted_candidates(id_low, records, n);
    if cands.len() >= 1 {
        lemma_dedup_nonempty(cands, cands.len() as int);
    }
}

/// Deduplication never changes the front: the first candidate survives it.
proof fn lemma_dedup_keeps_head(s: Seq<AppMatch>, i: int)
    requires
        i >= 1,
        s.len() >= 1,
    ensures
        dedup_by_pid(s, i).len() >= 1,
        dedup_by_pid(s, i)[0] == s[0],
    decreases i,
{
    if i > 1 {
        lemma_dedup_keeps_head(s, i - 1);
    } else {
        assert(!contains_pid(dedup_by_pid(s, 0), s[0].app.pid));
    }
}

/// The winner of the scoring pipeline is the top-scoring candidate: when
/// scoring resolves to a record, that record heads the sorted candidate
/// list, and no candidate scores above it.
pub proof fn lemma_winner_has_top_score(id_low: Seq<char>, records: Seq<ApplicationData>)
    ensures
        scored_outcome(id_low, records) matches ResolveOutcome::Found(app) ==> {
            let cands = sorted_candidates(id_low, records, records.len() as int);
            &&& cands.len() >= 1
            &&& app == cands[0].app
            &&& forall|k: int| 0 <= k < cands.len() ==> cands[0].score >= (#[trigger] cands[k]).score
        },
{
    let n = records.len() as int;
    let cands = sorted_candidates(id_low, records, n);
    lemma_candidates_sorted(id_low, records, n);
    if cands.len() >= 1 {
        lemma_dedup_keeps_head(cands, cands.len() as int);
    }
}

/// An ambiguity verdict always names at least two candidates: the top one
/// and a rival inside its band.
pub proof fn lemma_ambiguous_names_two(s: Seq<AppMatch>)
    ensures
        process_spec(s) matches ResolveOutcome::Ambiguous(band) ==> band.len() >= 2,
{
}

/// Empty input: resolving any identifier against an empty snapshot reports
/// that nothing was found.
pub proof fn lemma_resolve_empty(identifier: Seq<char>)
    ensures
        resolve_spec(identifier, Seq::<ApplicationData>::empty()) is NotFound,
{
    let records = Seq::<ApplicationData>::empty();
    assert(first_exact_name(lower_of(identifier), records, 0) is None);
    assert(first_exact_bundle(identifier, records, 0) is None);
    assert(sorted_candidates(lower_of(identifier), records, 0) =~= Seq::<AppMatch>::empty());
    assert(dedup_by_pid(Seq::<AppMatch>::empty(), 0) =~= Seq::<AppMatch>::empty());
}

/// Names that mark a process as part of the system rather than an
/// application.
pub open spec fn is_system_process_spec(name: Seq<char>) -> bool {
    seq_contains(name, "kernel"@) || seq_contains(name, "kthreadd"@) || seq_contains(
        name,
        "ksoftirqd"@,
    ) || seq_contains(name, "migration"@) || seq_contains(name, "rcu_"@) || seq_contains(
        name,
        "watchdog"@,
    ) || seq_contains(name, "systemd"@) || seq_contains(name, "kworker"@) || seq_contains(
        name,
        "dbus"@,
    ) || seq_contains(name, "NetworkManager"@) || seq_contains(name, "pulseaudio"@)
        || seq_contains(name, "gdm"@) || seq_contains(name, "gnome-session"@) || seq_contains(
        name,
        "gnome-shell"@,
    ) || seq_contains(name, "Xorg"@) || seq_contains(name, "wayland"@)
}

/// `suf` is a final segment of `s`.
pub open spec fn is_suffix(suf: Seq<char>, s: Seq<char>) -> bool {
    suf.len() <= s.len() && suf == s.subrange(s.len() - suf.len(), s.len() as int)
}

/// `s` with every trailing repetition of `suf` removed; a suffix of length
/// zero removes nothing.
pub open spec fn strip_all(s: Seq<char>, suf: Seq<char>) -> Seq<char>
    decreases s.len(),
{
    if suf.len() > 0 && is_suffix(suf, s) {
        strip_all(s.subrange(0, s.len() - suf.len()), suf)
    } else {
        s
    }
}

/// The cleaned display name of a process: executable suffixes stripped, the
/// first character uppercased.
pub open spec fn display_name_spec(s: Seq<char>) -> Seq<char> {
    let t = strip_all(strip_all(s, ".exe"@), "-bin"@);
    if t.len() == 0 {
        t
    } else {
        upper_of_char(t[0]) + t.subrange(1, t.len() as int)
    }
}

/// The (display name, pid) pairs the snapshot pipeline keeps: empty and
/// system names dropped, one entry per display name, first pid wins.
pub open spec fn app_entries_spec(procs: Seq<(String, i32)>, i: int) -> Seq<(Seq<char>, i32)>
    decreases i,
{
    if i <= 0 {
        Seq::empty()
    } else {
        let p = app_entries_spec(procs, i - 1);
        if 0 <= i - 1 < procs.len() {
            let name = procs[i - 1].0@;
            let pid = procs[i - 1].1;
            if name.len() == 0 || is_system_process_spec(name) {
                p
            } else {
                let dn = display_name_spec(name);
                if exists|j: int| 0 <= j < p.len() && p[j].0 == dn {
                    p
                } else {
                    p.push((dn, pid))
                }
            }
        } else {
            p
        }
    }
}

/// `suf@` is a final segment of `s@`.
fn chars_suffix(suf: &Vec<char>, s: &Vec<char>) -> (r: bool)
    ensures
        r == is_suffix(suf@, s@),
{
    if suf.len() > s.len() {
        return false;
    }
    let start = s.len() - suf.len();
    let r = crate::strings::matches_at(s, suf, start);
    proof {
        assert(contains_at(s@, suf@, s@.len() - suf@.len()) == is_suffix(suf@, s@));
    }
    r
}

/// `v` with every trailing repetition of `suf` removed.
fn strip_all_chars(v: Vec<char>, suf: &Vec<char>) -> (r: Vec<char>)
    requires
        suf@.len() > 0,
    ensures
        r@ == strip_all(v@, suf@),
{
    let mut cur = v;
    let ghost orig = cur@;
    loop
        invariant
            suf@.len() > 0,
            strip_all(orig, suf@) == strip_all(cur@, suf@),
        ensures
            strip_all(orig, suf@) == cur@,
        decreases cur@.len(),
    {
        if !chars_suffix(suf, &cur) {
            assert(strip_all(cur@, suf@) == cur@);
            break ;
        }
        let new_len = cur.len() - suf.len();
        let ghost before = cur@;
        cur.truncate(new_len);
        proof {
            assert(cur@ =~= before.subrange(0, before.len() - suf@.len()));
        }
    }
    cur
}

impl ApplicationFinder {
    /// Whether the name belongs to a system process that listings skip.
    pub fn is_system_process(&self, name: &str) -> (r: bool)
        ensures
            r == is_system_process_spec(name@),
    {
        let chars = str_chars(name);
        if contains_lit(&chars, "kernel") {
            return true;
        }
        if contains_lit(&chars, "kthreadd") {
            return true;
        }
        if contains_lit(&chars, "ksoftirqd") {
            return true;
        }
        if contains_lit(&chars, "migration") {
            return true;
        }
        if contains_lit(&chars, "rcu_") {
            return true;
        }
        if contains_lit(&chars, "watchdog") {
            return true;
        }
        if contains_lit(&chars, "systemd") {
            return true;
        }
        if contains_lit(&chars, "kworker") {
            return true;
        }
        if contains_lit(&chars, "dbus") {
            return true;
        }
        if contains_lit(&chars, "NetworkManager") {
            return true;
        }
        if contains_lit(&chars, "pulseaudio") {
            return true;
        }
        if contains_lit(&chars, "gdm") {
            return true;
        }
        if contains_lit(&chars, "gnome-session") {
            return true;
        }
        if contains_lit(&chars, "gnome-shell") {
            return true;
        }
        if contains_lit(&chars, "Xorg") {
            return true;
        }
        if contains_lit(&chars, "wayland") {
            return true;
        }
        false
    }

    /// The cleaned display name of a process: trailing `.exe` then `-bin`
    /// repetitions stripped, the first character uppercased.
    pub fn get_display_name(&self, process_name: &str) -> (r: String)
        ensures
            r@ == display_name_spec(process_name@),
    {
        let chars = str_chars(process_name);
        let exe = str_chars(".exe");
        let bin = str_chars("-bin");
        proof {
            reveal_strlit(".exe");
            reveal_strlit("-bin");
        }
        let stripped = strip_all_chars(strip_all_chars(chars, &exe), &bin);
        if stripped.len() == 0 {
            let r = String::new();
            proof {
                assert(r@ =~= display_name_spec(process_name@));
            }
            return r;
        }
        let mut head = uppercase_char(stripped[0]);
        let n = stripped.len();
        let mut rest: Vec<char> = Vec::new();
        let mut i: usize = 1;
        while i < n
            invariant
                n == stripped@.len(),
                1 <= i <= n,
                rest@ == stripped@.subrange(1, i as int),
            decreases n - i,
        {
            rest.push(stripped[i]);
            proof {
                assert(rest@ =~= stripped@.subrange(1, i as int + 1));
            }
            i += 1;
        }
        let rest_string = string_from_chars(&rest);
        head.append(rest_string.as_str());
        proof {
            assert(head@ =~= display_name_spec(process_name@));
        }
        head
    }

    /// Build the resolver's snapshot from raw (process name, pid) pairs:
    /// empty and system names are dropped, each remaining process gets its
    /// display name, one record per display name survives with the first
    /// pid seen, no bundle id or path, and the active flag set.
    pub fn get_all_running_applications_internal(&self, processes: &Vec<(String, i32)>) -> (r: Vec<
        ApplicationData,
    >)
        ensures
            ({
                let entries = app_entries_spec(processes@, processes@.len() as int);
                r@.len() == entries.len() && forall|k: int|
                    0 <= k < entries.len() ==> r@[k].name@ == entries[k].0 && r@[k].pid
                        == entries[k].1 && r@[k].bundle_id is None && r@[k].path is None
                        && r@[k].is_active
            }),
    {
        let n = processes.len();
        let mut apps: Vec<ApplicationData> = Vec::new();
        let mut i: usize = 0;
        while i < n
            invariant
                n == processes@.len(),
                i <= n,
                ({
                    let entries = app_entries_spec(processes@, i as int);
                    apps@.len() == entries.len() && forall|k: int|
                        0 <= k < entries.len() ==> apps@[k].name@ == entries[k].0 && apps@[k].pid
                            == entries[k].1 && apps@[k].bundle_id is None && apps@[k].path is None
                            && apps@[k].is_active
                }),
            decreases n - i,
        {
            let name = &processes[i].0;
            let pid = processes[i].1;
            let ghost entries_i = app_entries_spec(processes@, i as int);
            let ghost apps_pre = apps@;
            let keep = if name.as_str().unicode_len() == 0 {
                false
            } else {
                !self.is_system_process(name.as_str())
            };
            if keep {
                let display_name = self.get_display_name(name.as_str());
                let present = apps_contain_name(&apps, &display_name);
                proof {
                    let dn = display_name_spec(processes@[i as int].0@);
                    if present {
                        let k = choose|k: int|
                            0 <= k < apps_pre.len() && apps_pre[k].name@ == display_name@;
                        assert(entries_i[k].0 == dn);
                        assert(exists|j: int| 0 <= j < entries_i.len() && entries_i[j].0 == dn);
                    } else {
                        assert forall|j: int|
                            0 <= j < entries_i.len() implies entries_i[j].0 != dn by {
                            assert(apps_pre[j].name@ == entries_i[j].0);
                        }
                    }
                }
                if !present {
                    apps.push(
                        ApplicationData {
                            name: display_name,
                            bundle_id: None,
                            path: None,
                            pid,
                            is_active: true,
                        },
                    );
                    proof {
                        let dn = display_name_spec(processes@[i as int].0@);
                        assert(app_entries_spec(processes@, i as int + 1) =~= entries_i.push(
                            (dn, pid),
                        ));
                    }
                } else {
                    proof {
                        assert(app_entries_spec(processes@, i as int + 1) =~= entries_i);
                    }
                }
            } else {
                proof {
                    assert(app_entries_spec(processes@, i as int + 1) =~= entries_i);
                }
            }
            i += 1;
        }
        apps
    }
}

/// An application listing kept in ascending name order, case-insensitively:
/// `x` goes after every entry whose lowered name precedes or equals its own.
pub open spec fn insert_info(s: Seq<ApplicationInfo>, x: ApplicationInfo) -> Seq<ApplicationInfo>
    decreases s.len(),
{
    if s.len() == 0 {
        seq![x]
    } else if crate::strings::lex_le(lower_of(s[0].app_name@), lower_of(x.app_name@)) {
        seq![s[0]] + insert_info(s.drop_first(), x)
    } else {
        seq![x] + s
    }
}

/// The first `i` entries, sorted stably by lowered name.
pub open spec fn sort_infos(s: Seq<ApplicationInfo>, i: int) -> Seq<ApplicationInfo>
    decreases i,
{
    if i <= 0 {
        Seq::empty()
    } else {
        if 0 <= i - 1 < s.len() {
            insert_info(sort_infos(s, i - 1), s[i - 1])
        } else {
            sort_infos(s, i - 1)
        }
    }
}

/// The stable name-ordered insertion lands exactly at the first position
/// whose lowered name follows the new entry's.
proof fn lemma_insert_info_at(s: Seq<ApplicationInfo>, x: ApplicationInfo, p: int)
    requires
        0 <= p <= s.len(),
        forall|k: int|
            0 <= k < p ==> crate::strings::lex_le(lower_of(s[k].app_name@), lower_of(x.app_name@)),
        p < s.len() ==> !crate::strings::lex_le(lower_of(s[p].app_name@), lower_of(x.app_name@)),
    ensures
        insert_info(s, x) == s.insert(p, x),
    decreases p,
{
    if p == 0 {
        if s.len() == 0 {
            assert(insert_info(s, x) =~= s.insert(0, x));
        } else {
            assert(insert_info(s, x) =~= s.insert(0, x));
        }
    } else {
        lemma_insert_info_at(s.drop_first(), x, p - 1);
        assert(seq![s[0]] + s.drop_first().insert(p - 1, x) =~= s.insert(p, x));
    }
}

/// Place one entry into an already-ordered listing, after every entry whose
/// lowered name precedes or equals its own.
fn insert_info_sorted(v: &mut Vec<ApplicationInfo>, x: ApplicationInfo)
    ensures
        final(v)@ == insert_info(old(v)@, x),
{
    let xkey_string = lowercase(x.app_name.as_str());
    let xkey = str_chars(xkey_string.as_str());
    let mut p: usize = 0;
    loop
        invariant
            v@ == old(v)@,
            p <= v@.len(),
            xkey@ == lower_of(x.app_name@),
            forall|k: int|
                0 <= k < p ==> crate::strings::lex_le(
                    lower_of(v@[k].app_name@),
                    lower_of(x.app_name@),
                ),
        ensures
            v@ == old(v)@,
            p <= v@.len(),
            forall|k: int|
                0 <= k < p ==> crate::strings::lex_le(
                    lower_of(v@[k].app_name@),
                    lower_of(x.app_name@),
                ),
            p < v@.len() ==> !crate::strings::lex_le(
                lower_of(v@[p as int].app_name@),
                lower_of(x.app_name@),
            ),
        decreases v@.len() - p,
    {
        if p >= v.len() {
            break ;
        }
        let vkey_string = lowercase(v[p].app_name.as_str());
        let vkey = str_chars(vkey_string.as_str());
        if !crate::strings::chars_lex_le(&vkey, &xkey) {
            break ;
        }
        p += 1;
    }
    proof {
        lemma_insert_info_at(v@, x, p as int);
    }
    v.insert(p, x);
}

impl ApplicationFinder {
    /// How many windows the application shows.  Until a window backend
    /// stands here, every process counts one window, so that listings
    /// include it.
    pub fn count_windows_for_app(&self, pid: i32) -> (r: i32)
        ensures
            r == 1,
    {
        let _ = pid;
        1
    }

    /// The running applications as callers see them: the snapshot pipeline's
    /// records, each with its window count, applications without windows
    /// dropped, ordered by name case-insensitively with the pipeline's order
    /// among equal names.
    pub fn get_all_running_applications(&self, processes: &Vec<(String, i32)>) -> (r:
        PeekabooResult<Vec<ApplicationInfo>>)
        ensures
            match r {
                Ok(list) => exists|conv: Seq<ApplicationInfo>|
                    #![trigger sort_infos(conv, conv.len() as int)]
                    {
                        let entries = app_entries_spec(processes@, processes@.len() as int);
                        &&& conv.len() == entries.len()
                        &&& (forall|k: int|
                            0 <= k < entries.len() ==> (#[trigger] conv[k]).app_name@
                                == entries[k].0 && conv[k].bundle_id@ == Seq::<char>::empty()
                                && conv[k].pid == entries[k].1 && conv[k].is_active
                                && conv[k].window_count == 1)
                        &&& list@ == sort_infos(conv, conv.len() as int)
                    },
                Err(_) => false,
            },
    {
        let apps = self.get_all_running_applications_internal(processes);
        let n = apps.len();
        let mut converted: Vec<ApplicationInfo> = Vec::new();
        let ghost entries = app_entries_spec(processes@, processes@.len() as int);

        let mut i: usize = 0;
        while i < n
            invariant
                n == apps@.len(),
                n == entries.len(),
                i <= n,
                forall|k: int|
                    0 <= k < n ==> apps@[k].name@ == entries[k].0 && apps@[k].pid == entries[k].1
                        && apps@[k].bundle_id is None && apps@[k].is_active,
                converted@.len() == i,
                forall|k: int|
                    0 <= k < i ==> (#[trigger] converted@[k]).app_name@ == entries[k].0
                        && converted@[k].bundle_id@ == Seq::<char>::empty() && converted@[k].pid
                        == entries[k].1 && converted@[k].is_active && converted@[k].window_count
                        == 1,
            decreases n - i,
        {
            let app = apps[i].clone();
            let window_count = self.count_windows_for_app(app.pid);
            if window_count > 0 {
                let mut info = app.to_application_info();
                info.window_count = window_count;
                proof {
                    assert(info.app_name@ == entries[i as int].0);
                    assert(info.bundle_id@ == Seq::<char>::empty());
                    assert(info.pid == entries[i as int].1);
                    assert(info.is_active);
                    assert(info.window_count == 1);
                }
                converted.push(info);
            }
            i += 1;
        }

        let ghost conv0 = converted@;
        let mut result: Vec<ApplicationInfo> = Vec::new();
        let mut sorted_up_to: usize = 0;
        let total = converted.len();
        let mut remaining = converted;
        while sorted_up_to < total
            invariant
                total == conv0.len(),
                sorted_up_to <= total,
                remaining@ == conv0.skip(sorted_up_to as int),
                result@ == sort_infos(conv0, sorted_up_to as int),
            decreases total - sorted_up_to,
        {
            let x = remaining.remove(0);
            proof {
                assert(x == conv0[sorted_up_to as int]);
                assert(remaining@ =~= conv0.skip(sorted_up_to as int + 1));
            }
            insert_info_sorted(&mut result, x);
            sorted_up_to += 1;
        }
        Ok(result)
    }
}

/// Whether a kept record already carries this display name.
fn apps_contain_name(apps: &Vec<ApplicationData>, name: &String) -> (r: bool)
    ensures
        r == exists|j: int| 0 <= j < apps@.len() && apps@[j].name@ == name@,
{
    let n = apps.len();
    let mut i: usize = 0;
    while i < n
        invariant
            n == apps@.len(),
            i <= n,
            forall|k: int| 0 <= k < i ==> apps@[k].name@ != name@,
        decreases n - i,
    {
        if apps[i].name.eq(name) {
            return true;
        }
        i += 1;
    }
    false
}

/// Whether the characters hold the literal as a contiguous run.
fn contains_lit(hay: &Vec<char>, lit: &str) -> (r: bool)
    ensures
        r == seq_contains(hay@, lit@),
{
    let lit_chars = str_chars(lit);
    chars_contains(hay, &lit_chars)
}

/// The identifier holds the character `c` somewhere.
pub fn chars_has(v: &Vec<char>, c: char) -> (r: bool)
    ensures
        r == contains_char(v@, c),
{
    let n = v.len();
    let mut i: usize = 0;
    while i < n
        invariant
            n == v@.len(),
            i <= n,
            forall|k: int| 0 <= k < i ==> v@[k] != c,
        decreases n - i,
    {
        if v[i] == c {
            return true;
        }
        i += 1;
    }
    false
}

} // verus!
