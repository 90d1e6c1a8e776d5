//! A package of the registry: its record, what is derived from it, and its
//! score.

use vstd::prelude::*;
use vstd::string::*;

use crate::esr_errors::EsrError;
use crate::esr_from::{EsrFrom, EsrFromMulti, Meta};
use crate::esr_macros::{
    score_add, spec_gain, spec_loss, spec_term, table_view, ScoreTerm, ScoreTermView, MAX_SCORE,
};
use crate::esr_fixed::{
    pow15_of_months, spec_pow15_of_months, spec_sqrt_of_count, spec_sqrt_of_months, sqrt_of_count,
    sqrt_of_months, MAX_MONTHS, SECONDS_PER_MONTH,
};
use crate::esr_util::{
    crate_age_in_months, crate_age_in_seconds, crate_span_in_months, decimal, github_repo,
    is_fault, is_repo_path, is_sorted_set_of, opt_view, sort_dedup, spec_crate_age, spec_crate_age_seconds,
    lemma_str_lt_irreflexive, spec_crate_span, spec_decimal, spec_github_repo, spec_str_lt,
    str_eq, str_views, strictly_sorted, DateFault,
};

verus! {

// ---------------------------------------------------------------------------
// Versions
// ---------------------------------------------------------------------------

/// Whether `version`, read by `semver::Version::parse`, has a pre-release
/// part; `None` where it is not a version.
pub uninterp spec fn semver_prerelease(version: Seq<char>) -> Option<bool>;

/// Whether the requirement `req`, read by `semver::VersionReq::parse`, matches
/// `version`, read by `semver::Version::parse`; `None` where either is not
/// what it should be.
pub uninterp spec fn semver_matches(req: Seq<char>, version: Seq<char>) -> Option<bool>;

/// Calls `semver::Version::parse` and, on the version it gives,
/// `Version::is_prerelease`. The contract says only that the outcome is a
/// function of the string, named `semver_prerelease`.
#[verifier::external_body]
fn version_prerelease(version: &str) -> (r: Option<bool>)
    ensures
        r == semver_prerelease(version@),
{
    match semver::Version::parse(version) {
        Ok(v) => Some(v.is_prerelease()),
        Err(_) => None,
    }
}

/// Calls `semver::Version::parse`, `semver::VersionReq::parse` and, where both
/// succeed, `VersionReq::matches`. The contract says only that the outcome is
/// a function of the two strings, named `semver_matches`.
#[verifier::external_body]
fn requirement_matches(req: &str, version: &str) -> (r: Option<bool>)
    ensures
        r == semver_matches(req@, version@),
{
    match (semver::Version::parse(version), semver::VersionReq::parse(req)) {
        (Ok(v), Ok(r)) => Some(r.matches(&v)),
        _ => None,
    }
}

// ---------------------------------------------------------------------------
// Records
// ---------------------------------------------------------------------------

fn opt_as_str(o: &Option<String>) -> (r: Option<&str>)
    ensures
        match r {
            Some(s) => opt_view(*o) == Some(s@),
            None => opt_view(*o) is None,
        },
{
    match o {
        Some(s) => Some(s.as_str()),
        None => None,
    }
}

/// What a package says of itself.
pub struct CrateGeneralInfoView {
    pub id: Seq<char>,
    pub created_at: Seq<char>,
    pub updated_at: Seq<char>,
    pub max_version: Seq<char>,
    pub description: Option<Seq<char>>,
    pub repository: Option<Seq<char>>,
    pub documentation: Option<Seq<char>>,
}

/// The registry's general information on one package.
#[derive(Debug)]
pub struct CrateGeneralInfo {
    id: String,  // the package's name
    created_at: String,
    updated_at: String,
    max_version: String,
    description: Option<String>,
    repository: Option<String>,
    documentation: Option<String>,
}

impl View for CrateGeneralInfo {
    type V = CrateGeneralInfoView;

    closed spec fn view(&self) -> CrateGeneralInfoView {
        CrateGeneralInfoView {
            id: self.id@,
            created_at: self.created_at@,
            updated_at: self.updated_at@,
            max_version: self.max_version@,
            description: opt_view(self.description),
            repository: opt_view(self.repository),
            documentation: opt_view(self.documentation),
        }
    }
}

impl CrateGeneralInfo {
    pub fn new(
        id: String,
        created_at: String,
        updated_at: String,
        max_version: String,
        description: Option<String>,
        repository: Option<String>,
        documentation: Option<String>,
    ) -> (r: Self)
        ensures
            r@ == (CrateGeneralInfoView {
                id: id@,
                created_at: created_at@,
                updated_at: updated_at@,
                max_version: max_version@,
                description: opt_view(description),
                repository: opt_view(repository),
                documentation: opt_view(documentation),
            }),
    {
        CrateGeneralInfo {
            id,
            created_at,
            updated_at,
            max_version,
            description,
            repository,
            documentation,
        }
    }

    pub fn get_id(&self) -> (r: &str)
        ensures
            r@ == self@.id,
    {
        self.id.as_str()
    }
}

/// One published version of a package.
pub struct ReleaseView {
    pub created_at: Seq<char>,
    pub downloads: nat,
    pub num: Seq<char>,
    pub yanked: bool,
    pub license: Option<Seq<char>>,
}

/// The registry's record of one published version.
#[derive(Debug)]
pub struct CrateReleaseInfo {
    created_at: String,
    downloads: usize,
    num: String,  // the version
    yanked: bool,
    license: Option<String>,
}

impl View for CrateReleaseInfo {
    type V = ReleaseView;

    closed spec fn view(&self) -> ReleaseView {
        ReleaseView {
            created_at: self.created_at@,
            downloads: self.downloads as nat,
            num: self.num@,
            yanked: self.yanked,
            license: opt_view(self.license),
        }
    }
}

impl CrateReleaseInfo {
    pub fn new(
        created_at: String,
        downloads: usize,
        num: String,
        yanked: bool,
        license: Option<String>,
    ) -> (r: Self)
        ensures
            r@ == (ReleaseView {
                created_at: created_at@,
                downloads: downloads as nat,
                num: num@,
                yanked,
                license: opt_view(license),
            }),
    {
        CrateReleaseInfo { created_at, downloads, num, yanked, license }
    }

    /// The version of this release.
    pub fn get_num(&self) -> (r: &str)
        ensures
            r@ == self@.num,
    {
        self.num.as_str()
    }
}

/// The releases behind a list of them, one for one.
pub open spec fn release_views(rs: Seq<CrateReleaseInfo>) -> Seq<ReleaseView> {
    Seq::new(rs.len(), |i: int| rs[i]@)
}

/// The releases behind a list of references to them, one for one.
pub open spec fn release_ref_views(rs: Seq<&CrateReleaseInfo>) -> Seq<ReleaseView> {
    Seq::new(rs.len(), |i: int| rs[i]@)
}

/// A package with its releases, in the order in which the registry lists
/// them.
pub struct CrateInfoView {
    pub general_info: CrateGeneralInfoView,
    pub releases: Seq<ReleaseView>,
}

/// The registry's record of a package: what it says of itself, and its
/// releases, in the order in which the registry lists them. Where a score
/// asks for the newest release of a kind, it is the first of that kind in
/// the list.
#[derive(Debug)]
pub struct CrateInfo {
    general_info: CrateGeneralInfo,
    releases: Vec<CrateReleaseInfo>,
}

impl View for CrateInfo {
    type V = CrateInfoView;

    closed spec fn view(&self) -> CrateInfoView {
        CrateInfoView { general_info: self.general_info@, releases: release_views(self.releases@) }
    }
}

/// Whether a release was withdrawn.
pub open spec fn is_yanked(r: ReleaseView) -> bool {
    r.yanked
}

/// A release that was not withdrawn.
pub open spec fn is_non_yanked(r: ReleaseView) -> bool {
    !r.yanked
}

/// A release that was not withdrawn and whose version has no pre-release part.
pub open spec fn is_stable(r: ReleaseView) -> bool {
    !r.yanked && semver_prerelease(r.num) == Some(false)
}

/// The releases that were not withdrawn, in their order.
pub open spec fn spec_non_yanked(rs: Seq<ReleaseView>) -> Seq<ReleaseView> {
    rs.filter(|r: ReleaseView| is_non_yanked(r))
}

/// The stable releases, in their order.
pub open spec fn spec_stable(rs: Seq<ReleaseView>) -> Seq<ReleaseView> {
    rs.filter(|r: ReleaseView| is_stable(r))
}

/// The version that stands for "no release yet".
pub open spec fn empty_version() -> Seq<char> {
    "0.0.0"@
}

/// A package is degenerate where it has no release, where the version it
/// declares as its latest is `0.0.0`, or where every release was withdrawn.
pub open spec fn spec_empty_or_all_yanked(info: CrateInfoView) -> bool {
    ||| info.releases.len() == 0
    ||| info.general_info.max_version == empty_version()
    ||| forall|i: int| 0 <= i < info.releases.len() ==> info.releases[i].yanked
}

/// The first release with the given version, if there is one.
pub open spec fn spec_find_release(rs: Seq<ReleaseView>, num: Seq<char>) -> Option<ReleaseView>
    decreases rs.len(),
{
    if rs.len() == 0 {
        None
    } else if rs[0].num == num {
        Some(rs[0])
    } else {
        spec_find_release(rs.drop_first(), num)
    }
}

/// The license of the release that the package declares as its latest.
pub open spec fn spec_license(info: CrateInfoView) -> Option<Seq<char>> {
    match spec_find_release(info.releases, info.general_info.max_version) {
        Some(r) => r.license,
        None => None,
    }
}

impl CrateInfo {
    pub fn new(general_info: CrateGeneralInfo, releases: Vec<CrateReleaseInfo>) -> (r: Self)
        ensures
            r@ == (CrateInfoView {
                general_info: general_info@,
                releases: release_views(releases@),
            }),
    {
        CrateInfo { general_info, releases }
    }

    /// What the package says of itself.
    pub fn get_general_info(&self) -> (r: &CrateGeneralInfo)
        ensures
            r@ == self@.general_info,
    {
        &self.general_info
    }

    pub fn get_id(&self) -> (r: &str)
        ensures
            r@ == self@.general_info.id,
    {
        self.general_info.id.as_str()
    }

    pub fn get_max_version(&self) -> (r: &str)
        ensures
            r@ == self@.general_info.max_version,
    {
        self.general_info.max_version.as_str()
    }

    pub fn all_releases(&self) -> (r: &[CrateReleaseInfo])
        ensures
            release_views(r@) == self@.releases,
    {
        self.releases.as_slice()
    }

    pub fn non_yanked_releases(&self) -> (r: Vec<&CrateReleaseInfo>)
        ensures
            release_ref_views(r@) == spec_non_yanked(self@.releases),
    {
        let mut out: Vec<&CrateReleaseInfo> = Vec::new();
        let mut i: usize = 0;
        assert(self@.releases.take(0).filter(|r: ReleaseView| is_non_yanked(r))
            =~= Seq::<ReleaseView>::empty()) by {
            reveal(Seq::filter);
        }
        assert(release_ref_views(out@) =~= Seq::<ReleaseView>::empty());
        while i < self.releases.len()
            invariant
                i <= self.releases.len(),
                release_ref_views(out@) == spec_non_yanked(self@.releases.take(i as int)),
            decreases self.releases.len() - i,
        {
            let release = &self.releases[i];
            let ghost before = release_ref_views(out@);
            proof {
                let front = self@.releases.take(i as int);
                assert(self@.releases.take(i as int + 1) =~= front.push(release@));
                front.lemma_filter_push(release@, |r: ReleaseView| is_non_yanked(r));
            }
            if !release.yanked {
                out.push(release);
                assert(release_ref_views(out@) =~= before.push(release@));
            }
            i += 1;
        }
        assert(self@.releases.take(i as int) =~= self@.releases);
        out
    }

    pub fn stable_releases(&self) -> (r: Vec<&CrateReleaseInfo>)
        ensures
            release_ref_views(r@) == spec_stable(self@.releases),
    {
        let mut out: Vec<&CrateReleaseInfo> = Vec::new();
        let mut i: usize = 0;
        assert(self@.releases.take(0).filter(|r: ReleaseView| is_stable(r))
            =~= Seq::<ReleaseView>::empty()) by {
            reveal(Seq::filter);
        }
        assert(release_ref_views(out@) =~= Seq::<ReleaseView>::empty());
        while i < self.releases.len()
            invariant
                i <= self.releases.len(),
                release_ref_views(out@) == spec_stable(self@.releases.take(i as int)),
            decreases self.releases.len() - i,
        {
            let release = &self.releases[i];
            let ghost before = release_ref_views(out@);
            proof {
                let front = self@.releases.take(i as int);
                assert(self@.releases.take(i as int + 1) =~= front.push(release@));
                front.lemma_filter_push(release@, |r: ReleaseView| is_stable(r));
            }
            if !release.yanked {
                let pre = version_prerelease(release.num.as_str());
                if pre == Some(false) {
                    out.push(release);
                    assert(release_ref_views(out@) =~= before.push(release@));
                }
            }
            i += 1;
        }
        assert(self@.releases.take(i as int) =~= self@.releases);
        out
    }

    pub fn last_stable_version(&self) -> (r: Option<&str>)
        ensures
            match r {
                Some(num) => spec_stable(self@.releases).len() > 0 && num@ == spec_stable(
                    self@.releases,
                )[0].num,
                None => spec_stable(self@.releases).len() == 0,
            },
    {
        let stable = self.stable_releases();
        if stable.len() > 0 {
            assert(release_ref_views(stable@)[0] == stable@[0]@);
            Some(stable[0].num.as_str())
        } else {
            assert(release_ref_views(stable@).len() == 0);
            None
        }
    }

    /// The age at `now` of the release that the package declares as its
    /// latest, in billionths of a month; nothing where no release has that
    /// version.
    pub fn max_version_age(&self, now: i64) -> (r: Option<Result<u128, EsrError>>)
        ensures
            match spec_find_release(self@.releases, self@.general_info.max_version) {
                None => r is None,
                Some(release) => r is Some && match r->Some_0 {
                    Ok(age) => spec_crate_age(release.created_at, now as int) == Ok::<
                        nat,
                        DateFault,
                    >(age as nat),
                    Err(e) => spec_crate_age(release.created_at, now as int) is Err && is_fault(
                        e,
                        spec_crate_age(release.created_at, now as int)->Err_0,
                    ),
                },
            },
    {
        let mut i: usize = 0;
        assert(self@.releases.skip(0) =~= self@.releases);
        while i < self.releases.len()
            invariant
                i <= self.releases.len(),
                spec_find_release(self@.releases, self@.general_info.max_version)
                    == spec_find_release(
                    self@.releases.skip(i as int),
                    self@.general_info.max_version,
                ),
            decreases self.releases.len() - i,
        {
            let ghost rest = self@.releases.skip(i as int);
            assert(rest[0] == self@.releases[i as int]);
            assert(rest.drop_first() =~= self@.releases.skip(i as int + 1));
            if str_eq(self.releases[i].num.as_str(), self.get_max_version()) {
                return Some(crate_age_in_months(self.releases[i].created_at.as_str(), now));
            }
            i += 1;
        }
        None
    }

    /// The age at `now` of the first stable release, in billionths of a
    /// month; nothing where there is no stable release.
    pub fn last_stable_version_age(&self, now: i64) -> (r: Option<Result<u128, EsrError>>)
        ensures
            spec_stable(self@.releases).len() == 0 ==> r is None,
            spec_stable(self@.releases).len() > 0 ==> r is Some && match r->Some_0 {
                Ok(age) => spec_crate_age(spec_stable(self@.releases)[0].created_at, now as int)
                    == Ok::<nat, DateFault>(age as nat),
                Err(e) => spec_crate_age(spec_stable(self@.releases)[0].created_at, now as int)
                    is Err && is_fault(
                    e,
                    spec_crate_age(spec_stable(self@.releases)[0].created_at, now as int)->Err_0,
                ),
            },
    {
        let stable = self.stable_releases();
        if stable.len() > 0 {
            assert(release_ref_views(stable@)[0] == stable@[0]@);
            Some(crate_age_in_months(stable[0].created_at.as_str(), now))
        } else {
            assert(release_ref_views(stable@).len() == 0);
            None
        }
    }

    pub fn empty_or_all_yanked(&self) -> (r: bool)
        ensures
            r == spec_empty_or_all_yanked(self@),
    {
        let no_releases = self.releases.len() == 0;
        let empty_release = str_eq(self.get_max_version(), "0.0.0");
        let mut all_yanked = true;
        let mut i: usize = 0;
        while i < self.releases.len()
            invariant
                i <= self.releases.len(),
                all_yanked == forall|k: int| 0 <= k < i ==> self@.releases[k].yanked,
            decreases self.releases.len() - i,
        {
            if !self.releases[i].yanked {
                all_yanked = false;
                assert(!self@.releases[i as int].yanked);
            }
            i += 1;
        }
        no_releases || empty_release || all_yanked
    }

    pub fn get_description(&self) -> (r: Option<&str>)
        ensures
            match r {
                Some(s) => self@.general_info.description == Some(s@),
                None => self@.general_info.description is None,
            },
    {
        opt_as_str(&self.general_info.description)
    }

    pub fn get_repository(&self) -> (r: Option<&str>)
        ensures
            match r {
                Some(s) => self@.general_info.repository == Some(s@),
                None => self@.general_info.repository is None,
            },
    {
        opt_as_str(&self.general_info.repository)
    }

    pub fn get_documentation(&self) -> (r: Option<&str>)
        ensures
            match r {
                Some(s) => self@.general_info.documentation == Some(s@),
                None => self@.general_info.documentation is None,
            },
    {
        opt_as_str(&self.general_info.documentation)
    }

    pub fn get_license(&self) -> (r: Option<&str>)
        ensures
            match r {
                Some(s) => spec_license(self@) == Some(s@),
                None => spec_license(self@) is None,
            },
    {
        let mut i: usize = 0;
        assert(self@.releases.skip(0) =~= self@.releases);
        while i < self.releases.len()
            invariant
                i <= self.releases.len(),
                spec_find_release(self@.releases, self@.general_info.max_version)
                    == spec_find_release(
                    self@.releases.skip(i as int),
                    self@.general_info.max_version,
                ),
            decreases self.releases.len() - i,
        {
            let ghost rest = self@.releases.skip(i as int);
            assert(rest[0] == self@.releases[i as int]);
            assert(rest.drop_first() =~= self@.releases.skip(i as int + 1));
            if str_eq(self.releases[i].num.as_str(), self.get_max_version()) {
                return opt_as_str(&self.releases[i].license);
            }
            i += 1;
        }
        None
    }

    pub fn github_id(&self) -> (r: Option<String>)
        ensures
            match r {
                Some(id) => self@.general_info.repository is Some && spec_github_repo(
                    self@.general_info.repository->Some_0,
                ) == Some(id@) && is_repo_path(id@),
                None => self@.general_info.repository is None || spec_github_repo(
                    self@.general_info.repository->Some_0,
                ) is None,
            },
    {
        match &self.general_info.repository {
            Some(repo) => github_repo(repo.as_str()),
            None => None,
        }
    }
}


// ---------------------------------------------------------------------------
// Current versions
// ---------------------------------------------------------------------------

/// The version of the first release of a list, as a list of its own.
pub open spec fn first_num(rs: Seq<ReleaseView>) -> Seq<Seq<char>> {
    if rs.len() > 0 {
        seq![rs[0].num]
    } else {
        Seq::empty()
    }
}

/// The versions of the young releases: all those of the list that are no
/// older than one synthetic month at `now`, in the order of the list,
/// wherever in the list they stand. The first release whose date has a fault
/// gives that fault.
pub open spec fn spec_recent_versions(rs: Seq<ReleaseView>, now: int) -> Result<
    Seq<Seq<char>>,
    DateFault,
>
    decreases rs.len(),
{
    if rs.len() == 0 {
        Ok(Seq::empty())
    } else {
        match spec_crate_age_seconds(rs[0].created_at, now) {
            Err(fault) => Err(fault),
            Ok(age) => spec_after(
                if age <= SECONDS_PER_MONTH {
                    seq![rs[0].num]
                } else {
                    Seq::empty()
                },
                spec_recent_versions(rs.drop_first(), now),
            ),
        }
    }
}

/// `head` followed by what `rest` holds, where it holds anything.
pub open spec fn spec_after(head: Seq<Seq<char>>, rest: Result<Seq<Seq<char>>, DateFault>) -> Result<
    Seq<Seq<char>>,
    DateFault,
> {
    match rest {
        Ok(tail) => Ok(head + tail),
        Err(fault) => Err(fault),
    }
}

/// The versions that are current whatever their age: the one that the package
/// declares as its latest, that of the first release that was not withdrawn,
/// and that of the first stable release.
pub open spec fn spec_head_versions(info: CrateInfoView) -> Seq<Seq<char>> {
    seq![info.general_info.max_version] + first_num(spec_non_yanked(info.releases)) + first_num(
        spec_stable(info.releases),
    )
}

/// The current versions as they are gathered, before they are put in order.
pub open spec fn spec_current_candidates(info: CrateInfoView, now: int) -> Result<
    Seq<Seq<char>>,
    DateFault,
> {
    spec_after(
        spec_head_versions(info),
        spec_recent_versions(spec_non_yanked(info.releases), now),
    )
}

impl CrateInfo {
    /// The versions of the package that count as current at `now` (seconds
    /// since the epoch), in the order of `str` and each once: the version
    /// that the package declares as its latest, that of the first release
    /// that was not withdrawn, that of the first stable release, and those of
    /// all releases that were not withdrawn and are no older than one
    /// synthetic month. The date of every release that was not withdrawn is
    /// read.
    pub fn get_current_versions(&self, now: i64) -> (r: Result<Vec<&str>, EsrError>)
        ensures
            match r {
                Ok(versions) => spec_current_candidates(self@, now as int) is Ok
                    && is_sorted_set_of(
                    str_views(versions@),
                    spec_current_candidates(self@, now as int)->Ok_0,
                ),
                Err(e) => spec_current_candidates(self@, now as int) is Err && is_fault(
                    e,
                    spec_current_candidates(self@, now as int)->Err_0,
                ),
            },
    {
        let mut current: Vec<&str> = Vec::new();
        current.push(self.general_info.max_version.as_str());
        let non_yanked = self.non_yanked_releases();
        if non_yanked.len() > 0 {
            assert(release_ref_views(non_yanked@)[0] == non_yanked@[0]@);
            current.push(non_yanked[0].num.as_str());
        }
        let stable = self.stable_releases();
        if stable.len() > 0 {
            assert(release_ref_views(stable@)[0] == stable@[0]@);
            current.push(stable[0].num.as_str());
        }
        let ghost head = spec_head_versions(self@);
        let ghost ny = spec_non_yanked(self@.releases);
        let ghost mut recent: Seq<Seq<char>> = Seq::empty();
        assert(str_views(current@) =~= head + recent);
        assert(ny.skip(0) =~= ny);
        assert(spec_after(recent, spec_recent_versions(ny, now as int)) == spec_recent_versions(
            ny,
            now as int,
        )) by {
            match spec_recent_versions(ny, now as int) {
                Ok(tail) => {
                    assert(recent + tail =~= tail);
                },
                Err(_) => {},
            }
        }
        let mut i: usize = 0;
        while i < non_yanked.len()
            invariant
                i <= non_yanked.len(),
                release_ref_views(non_yanked@) == ny,
                str_views(current@) == head + recent,
                head == spec_head_versions(self@),
                ny == spec_non_yanked(self@.releases),
                spec_recent_versions(ny, now as int) == spec_after(
                    recent,
                    spec_recent_versions(ny.skip(i as int), now as int),
                ),
            decreases non_yanked.len() - i,
        {
            let release = non_yanked[i];
            let ghost rest = ny.skip(i as int);
            assert(rest[0] == release@);
            assert(rest.drop_first() =~= ny.skip(i as int + 1));
            match crate_age_in_seconds(release.created_at.as_str(), now) {
                Err(e) => {
                    return Err(e);
                },
                Ok(age) => {
                    if age <= SECONDS_PER_MONTH {
                        let ghost held = str_views(current@);
                        current.push(release.num.as_str());
                        proof {
                            let longer = recent.push(release@.num);
                            assert(str_views(current@) =~= held.push(release@.num));
                            assert(held.push(release@.num) =~= head + longer);
                            match spec_recent_versions(ny.skip(i as int + 1), now as int) {
                                Ok(tail) => {
                                    assert(recent + (seq![release@.num] + tail) =~= longer + tail);
                                },
                                Err(_) => {},
                            }
                            recent = longer;
                        }
                    } else {
                        proof {
                            match spec_recent_versions(ny.skip(i as int + 1), now as int) {
                                Ok(tail) => {
                                    assert(recent + (Seq::<Seq<char>>::empty() + tail) =~= recent
                                        + tail);
                                },
                                Err(_) => {},
                            }
                        }
                    }
                },
            }
            i += 1;
        }
        assert(recent + Seq::<Seq<char>>::empty() =~= recent);
        Ok(sort_dedup(&current))
    }
}


// ---------------------------------------------------------------------------
// Owners, dependants and searches
// ---------------------------------------------------------------------------

impl EsrFrom for CrateInfo {
    open spec fn spec_url_from_id(id: Seq<char>) -> Seq<char> {
        "https://crates.io/api/v1/crates/"@ + id
    }

    fn url_from_id(id: &str) -> (url: String) {
        String::from_str("https://crates.io/api/v1/crates/").concat(id)
    }
}

/// The accounts that own a package, by their numbers.
#[derive(Debug)]
pub struct CrateOwners {
    users: Vec<usize>,
}

impl View for CrateOwners {
    type V = Seq<usize>;

    closed spec fn view(&self) -> Seq<usize> {
        self.users@
    }
}

impl EsrFrom for CrateOwners {
    open spec fn spec_url_from_id(id: Seq<char>) -> Seq<char> {
        "https://crates.io/api/v1/crates/"@ + id + "/owners"@
    }

    fn url_from_id(id: &str) -> (url: String) {
        String::from_str("https://crates.io/api/v1/crates/").concat(id).concat("/owners")
    }
}

/// The search that finds the packages of the account with the given number.
pub open spec fn spec_owner_query(user: usize) -> Seq<char> {
    "user_id="@ + spec_decimal(user as nat)
}

impl CrateOwners {
    pub fn new(users: Vec<usize>) -> (r: Self)
        ensures
            r@ == users@,
    {
        CrateOwners { users }
    }

    /// One search for each owner, in the order of the owners: each finds the
    /// packages that the owner has.
    pub fn owner_queries(&self) -> (queries: Vec<String>)
        ensures
            queries@.len() == self@.len(),
            forall|i: int|
                0 <= i < self@.len() ==> (#[trigger] queries@[i])@ == spec_owner_query(self@[i]),
    {
        let mut queries: Vec<String> = Vec::new();
        let mut i: usize = 0;
        while i < self.users.len()
            invariant
                i <= self.users.len(),
                queries@.len() == i,
                forall|k: int|
                    0 <= k < i ==> (#[trigger] queries@[k])@ == spec_owner_query(self.users@[k]),
            decreases self.users.len() - i,
        {
            let query = String::from_str("user_id=").concat(decimal(self.users[i] as u128).as_str());
            queries.push(query);
            i += 1;
        }
        queries
    }
}

/// A package that depends on the one that is scored.
pub struct DependantView {
    pub crate_name: Seq<char>,
    /// The dependency is required and has its default features.
    pub default_features: bool,
    pub optional: bool,
    /// The versions that the dependant asks for.
    pub req: Seq<char>,
}

/// A package that depends on the one that is scored.
#[derive(Debug)]
pub struct Dependant {
    crate_name: String,
    default_features: bool,
    optional: bool,
    req: String,
}

impl View for Dependant {
    type V = DependantView;

    closed spec fn view(&self) -> DependantView {
        DependantView {
            crate_name: self.crate_name@,
            default_features: self.default_features,
            optional: self.optional,
            req: self.req@,
        }
    }
}

/// The dependants behind a list of them, one for one.
pub open spec fn dependant_views(ds: Seq<Dependant>) -> Seq<DependantView> {
    Seq::new(ds.len(), |i: int| ds[i]@)
}

/// A dependency as a package declares it in the index.
pub struct IndexDependencyView {
    pub crate_name: Seq<char>,
    pub default_features: bool,
    pub optional: bool,
    pub requirement: Seq<char>,
}

/// A dependency as a package declares it in the index.
#[derive(Debug)]
pub struct IndexDependency {
    crate_name: String,
    default_features: bool,
    optional: bool,
    requirement: String,
}

impl View for IndexDependency {
    type V = IndexDependencyView;

    closed spec fn view(&self) -> IndexDependencyView {
        IndexDependencyView {
            crate_name: self.crate_name@,
            default_features: self.default_features,
            optional: self.optional,
            requirement: self.requirement@,
        }
    }
}

impl IndexDependency {
    pub fn new(crate_name: String, default_features: bool, optional: bool, requirement: String) -> (r:
        Self)
        ensures
            r@ == (IndexDependencyView {
                crate_name: crate_name@,
                default_features,
                optional,
                requirement: requirement@,
            }),
    {
        IndexDependency { crate_name, default_features, optional, requirement }
    }
}

/// The dependencies behind a list of them, one for one.
pub open spec fn dependency_views(ds: Seq<IndexDependency>) -> Seq<IndexDependencyView> {
    Seq::new(ds.len(), |i: int| ds[i]@)
}

/// What the index holds of a package: its name and, of its latest version,
/// whether it was withdrawn and what it depends on.
pub struct IndexCrateView {
    pub name: Seq<char>,
    pub latest_yanked: bool,
    pub latest_dependencies: Seq<IndexDependencyView>,
}

/// What the index holds of a package: its name and, of its latest version,
/// whether it was withdrawn and what it depends on.
#[derive(Debug)]
pub struct IndexCrate {
    name: String,
    latest_yanked: bool,
    latest_dependencies: Vec<IndexDependency>,
}

impl View for IndexCrate {
    type V = IndexCrateView;

    closed spec fn view(&self) -> IndexCrateView {
        IndexCrateView {
            name: self.name@,
            latest_yanked: self.latest_yanked,
            latest_dependencies: dependency_views(self.latest_dependencies@),
        }
    }
}

impl IndexCrate {
    pub fn new(name: String, latest_yanked: bool, latest_dependencies: Vec<IndexDependency>) -> (r:
        Self)
        ensures
            r@ == (IndexCrateView {
                name: name@,
                latest_yanked,
                latest_dependencies: dependency_views(latest_dependencies@),
            }),
    {
        IndexCrate { name, latest_yanked, latest_dependencies }
    }
}

/// The packages behind a list of index entries, one for one.
pub open spec fn index_views(cs: Seq<IndexCrate>) -> Seq<IndexCrateView> {
    Seq::new(cs.len(), |i: int| cs[i]@)
}

/// The first dependency on the package `id` in a list of dependencies.
pub open spec fn spec_first_dependency_on(deps: Seq<IndexDependencyView>, id: Seq<char>) -> Option<
    IndexDependencyView,
>
    decreases deps.len(),
{
    if deps.len() == 0 {
        None
    } else if deps[0].crate_name == id {
        Some(deps[0])
    } else {
        spec_first_dependency_on(deps.drop_first(), id)
    }
}

/// What makes a package of the index a dependant of `id`: its latest version
/// was not withdrawn and depends on `id`. The first such dependency says how.
pub open spec fn spec_dependant_of(cr: IndexCrateView, id: Seq<char>) -> Option<DependantView> {
    if cr.latest_yanked {
        None
    } else {
        match spec_first_dependency_on(cr.latest_dependencies, id) {
            Some(dep) => Some(
                DependantView {
                    crate_name: cr.name,
                    default_features: dep.default_features && !dep.optional,
                    optional: dep.optional,
                    req: dep.requirement,
                },
            ),
            None => None,
        }
    }
}

/// The dependants of `id` among the packages of the index, in their order.
pub open spec fn spec_dependants(index: Seq<IndexCrateView>, id: Seq<char>) -> Seq<DependantView> {
    index.filter_map(|cr: IndexCrateView| spec_dependant_of(cr, id))
}

impl Dependant {
    pub fn new(crate_name: String, default_features: bool, optional: bool, req: String) -> (r: Self)
        ensures
            r@ == (DependantView { crate_name: crate_name@, default_features, optional, req: req@ }),
    {
        Dependant { crate_name, default_features, optional, req }
    }

    fn first_dependency_on<'a>(deps: &'a Vec<IndexDependency>, id: &str) -> (r: Option<
        &'a IndexDependency,
    >)
        ensures
            match r {
                Some(dep) => spec_first_dependency_on(dependency_views(deps@), id@) == Some(dep@),
                None => spec_first_dependency_on(dependency_views(deps@), id@) is None,
            },
    {
        let ghost views = dependency_views(deps@);
        let mut i: usize = 0;
        assert(views.skip(0) =~= views);
        while i < deps.len()
            invariant
                i <= deps.len(),
                views == dependency_views(deps@),
                spec_first_dependency_on(views, id@) == spec_first_dependency_on(
                    views.skip(i as int),
                    id@,
                ),
            decreases deps.len() - i,
        {
            let ghost rest = views.skip(i as int);
            assert(rest[0] == deps@[i as int]@);
            assert(rest.drop_first() =~= views.skip(i as int + 1));
            if str_eq(deps[i].crate_name.as_str(), id) {
                return Some(&deps[i]);
            }
            i += 1;
        }
        None
    }

    /// The packages of the index whose latest version depends on `id`.
    pub fn dependants_from_id(id: &str, index: &Vec<IndexCrate>) -> (r: Vec<Self>)
        ensures
            dependant_views(r@) == spec_dependants(index_views(index@), id@),
    {
        let ghost views = index_views(index@);
        let mut ret: Vec<Dependant> = Vec::new();
        let mut i: usize = 0;
        assert(dependant_views(ret@) =~= spec_dependants(views.take(0), id@));
        while i < index.len()
            invariant
                i <= index.len(),
                views == index_views(index@),
                dependant_views(ret@) == spec_dependants(views.take(i as int), id@),
            decreases index.len() - i,
        {
            let cr = &index[i];
            let ghost before = dependant_views(ret@);
            assert(views.take(i as int + 1).drop_last() =~= views.take(i as int));
            assert(views.take(i as int + 1).last() == cr@);
            if !cr.latest_yanked {
                match Self::first_dependency_on(&cr.latest_dependencies, id) {
                    Some(dep) => {
                        ret.push(
                            Dependant {
                                crate_name: cr.name.clone(),
                                default_features: dep.default_features && !dep.optional,
                                optional: dep.optional,
                                req: dep.requirement.clone(),
                            },
                        );
                        assert(dependant_views(ret@) =~= before + seq![
                            spec_dependant_of(cr@, id@)->Some_0,
                        ]);
                    },
                    None => {},
                }
            }
            i += 1;
        }
        assert(views.take(i as int) =~= views);
        ret
    }
}

/// What a search of the registry gave.
pub struct CrateSearchView {
    pub crates: Seq<CrateGeneralInfoView>,
    pub total: nat,
}

/// One page, or all pages, of a search of the registry.
#[derive(Debug)]
pub struct CrateSearch {
    crates: Vec<CrateGeneralInfo>,
    meta: Meta,
}

/// The packages behind a list of them, one for one.
pub open spec fn general_views(cs: Seq<CrateGeneralInfo>) -> Seq<CrateGeneralInfoView> {
    Seq::new(cs.len(), |i: int| cs[i]@)
}

impl View for CrateSearch {
    type V = CrateSearchView;

    closed spec fn view(&self) -> CrateSearchView {
        CrateSearchView { crates: general_views(self.crates@), total: self.meta.total as nat }
    }
}

/// The searches behind a list of them, one for one.
pub open spec fn search_views(ss: Seq<CrateSearch>) -> Seq<CrateSearchView> {
    Seq::new(ss.len(), |i: int| ss[i]@)
}

impl EsrFrom for CrateSearch {
    // the id is the whole query
    open spec fn spec_url_from_id(id: Seq<char>) -> Seq<char> {
        "https://crates.io/api/v1/crates?per_page=100&"@ + id
    }

    fn url_from_id(id: &str) -> (url: String) {
        String::from_str("https://crates.io/api/v1/crates?per_page=100&").concat(id)
    }
}

impl EsrFromMulti for CrateSearch {
    type Inner = CrateGeneralInfo;

    closed spec fn spec_total(&self) -> nat {
        self.meta.total as nat
    }

    closed spec fn spec_inner(&self) -> Seq<CrateGeneralInfo> {
        self.crates@
    }

    fn get_meta(&self) -> (meta: &Meta) {
        &self.meta
    }

    fn get_inner(&self) -> (inner: &Vec<CrateGeneralInfo>) {
        &self.crates
    }

    fn get_inner_mut(&mut self) -> (inner: &mut Vec<CrateGeneralInfo>) {
        &mut self.crates
    }
}

/// The address of a single page of a search.
pub open spec fn spec_single_page_url(id: Seq<char>) -> Seq<char> {
    "https://crates.io/api/v1/crates?"@ + id
}

impl CrateSearch {
    pub fn new(crates: Vec<CrateGeneralInfo>, meta: Meta) -> (r: Self)
        ensures
            r@ == (CrateSearchView { crates: general_views(crates@), total: meta.total as nat }),
            r.spec_inner() == crates@,
            r.spec_total() == meta.total,
    {
        CrateSearch { crates, meta }
    }

    /// What the pages of a search hold is what the search holds.
    pub proof fn lemma_view(&self)
        ensures
            self@.crates == general_views(self.spec_inner()),
            self@.total == self.spec_total(),
    {
    }

    /// The address of a single page of the search `id`: the query is taken
    /// as it is, page size and all.
    pub fn url_single_page(id: &str) -> (url: String)
        ensures
            url@ == spec_single_page_url(id@),
    {
        String::from_str("https://crates.io/api/v1/crates?").concat(id)
    }

    pub fn get_crates(&self) -> (r: &[CrateGeneralInfo])
        ensures
            general_views(r@) == self@.crates,
    {
        self.crates.as_slice()
    }
}


// ---------------------------------------------------------------------------
// What a package is scored by
// ---------------------------------------------------------------------------

/// One for a fact that holds, zero for one that does not.
pub open spec fn flag(b: bool) -> nat {
    if b {
        1
    } else {
        0
    }
}

/// A dependant that needs the package: the dependency is not optional and
/// has its default features.
pub open spec fn is_hard(d: DependantView) -> bool {
    d.default_features && !d.optional
}

/// Whether the requirement admits one of the versions.
pub open spec fn matches_any(req: Seq<char>, versions: Seq<Seq<char>>) -> bool {
    exists|k: int|
        0 <= k < versions.len() && semver_matches(req, #[trigger] versions[k]) == Some(true)
}

/// Whether one of the searches holds a package of the given name.
pub open spec fn is_owned(searches: Seq<CrateSearchView>, name: Seq<char>) -> bool {
    exists|i: int, j: int|
        0 <= i < searches.len() && 0 <= j < searches[i].crates.len() && (
        #[trigger] searches[i].crates[j]).id == name
}

pub open spec fn hard_pred() -> spec_fn(DependantView) -> bool {
    |d: DependantView| is_hard(d)
}

pub open spec fn on_versions_pred(versions: Seq<Seq<char>>) -> spec_fn(DependantView) -> bool {
    |d: DependantView| matches_any(d.req, versions)
}

pub open spec fn by_owners_pred(searches: Seq<CrateSearchView>) -> spec_fn(DependantView) -> bool {
    |d: DependantView| is_owned(searches, d.crate_name)
}

/// The downloads of the first two releases that were not withdrawn.
pub open spec fn spec_recent_downloads(non_yanked: Seq<ReleaseView>) -> nat {
    (if non_yanked.len() > 0 {
        non_yanked[0].downloads
    } else {
        0
    }) + (if non_yanked.len() > 1 {
        non_yanked[1].downloads
    } else {
        0
    })
}

/// The age of the first release that was not withdrawn, or of the package
/// itself where it has none.
pub open spec fn spec_last_release_age(info: CrateInfoView, now: int) -> Result<nat, DateFault> {
    let non_yanked = spec_non_yanked(info.releases);
    if non_yanked.len() > 0 {
        spec_crate_age(non_yanked[0].created_at, now)
    } else {
        spec_crate_age(info.general_info.created_at, now)
    }
}

/// What a package is scored by. Times are in billionths of a month.
pub struct CrateScoreInfoView {
    pub has_desc: nat,
    pub has_docs: nat,
    pub has_license: nat,
    pub activity_span_in_months: nat,
    pub releases: nat,
    pub non_yanked_releases: nat,
    pub stable_releases: nat,
    pub last_2_non_yanked_releases_downloads: nat,
    pub dependants: nat,
    pub hard_dependants: nat,
    pub dependants_on_current_versions: nat,
    pub dependants_from_non_owners: nat,
    pub months_since_last_release: nat,
    pub empty_or_all_yanked: nat,
}

/// What a package is scored by, from its record, its dependants, the
/// packages of its owners (one search for each owner) and the time. The
/// dates are read in this order: the span of activity, the age of the last
/// release, the ages that decide which versions are current. The first fault
/// is the result.
pub open spec fn spec_score_info(
    info: CrateInfoView,
    dependants: Seq<DependantView>,
    owners_crates: Seq<CrateSearchView>,
    now: int,
) -> Result<CrateScoreInfoView, DateFault> {
    match spec_crate_span(info.general_info.created_at, info.general_info.updated_at) {
        Err(fault) => Err(fault),
        Ok(span) => match spec_last_release_age(info, now) {
            Err(fault) => Err(fault),
            Ok(age) => match spec_current_candidates(info, now) {
                Err(fault) => Err(fault),
                Ok(current) => Ok(
                    CrateScoreInfoView {
                        has_desc: flag(info.general_info.description is Some),
                        has_docs: flag(info.general_info.documentation is Some),
                        has_license: flag(spec_license(info) is Some),
                        activity_span_in_months: span,
                        releases: info.releases.len(),
                        non_yanked_releases: spec_non_yanked(info.releases).len(),
                        stable_releases: spec_stable(info.releases).len(),
                        last_2_non_yanked_releases_downloads: spec_recent_downloads(
                            spec_non_yanked(info.releases),
                        ),
                        dependants: dependants.len(),
                        hard_dependants: dependants.filter(hard_pred()).len(),
                        dependants_on_current_versions: dependants.filter(
                            on_versions_pred(current),
                        ).len(),
                        dependants_from_non_owners: (dependants.len() - dependants.filter(
                            by_owners_pred(owners_crates),
                        ).len()) as nat,
                        months_since_last_release: age,
                        empty_or_all_yanked: flag(spec_empty_or_all_yanked(info)),
                    },
                ),
            },
        },
    }
}

/// What each thing counts for, in thousandths of a point.
pub const WEIGHT_HAS_DESC: i64 = 5_000;

pub const WEIGHT_HAS_LICENSE: i64 = 5_000;

pub const WEIGHT_HAS_DOCS: i64 = 15_000;

pub const WEIGHT_ACTIVITY_SPAN: i64 = 6_000;

pub const WEIGHT_RELEASES: i64 = 500;

pub const WEIGHT_NON_YANKED_RELEASES: i64 = 500;

pub const WEIGHT_STABLE_RELEASES: i64 = 500;

pub const WEIGHT_RECENT_DOWNLOADS: i64 = 100;

pub const WEIGHT_DEPENDANTS: i64 = 500;

pub const WEIGHT_HARD_DEPENDANTS: i64 = 750;

pub const WEIGHT_DEPENDANTS_ON_CURRENT: i64 = 750;

pub const WEIGHT_DEPENDANTS_FROM_NON_OWNERS: i64 = 2_500;

pub const WEIGHT_SINCE_LAST_RELEASE: i64 = -2_000;

pub const WEIGHT_EMPTY_OR_ALL_YANKED: i64 = -5_000_000;

/// The lines of a package's score table that add to the score.
pub open spec fn spec_crate_positive_terms(v: CrateScoreInfoView) -> Seq<ScoreTermView> {
    seq![
        spec_term("has_desc"@, v.has_desc * 1_000_000, WEIGHT_HAS_DESC as int),
        spec_term("has_license"@, v.has_license * 1_000_000, WEIGHT_HAS_LICENSE as int),
        spec_term("has_docs"@, v.has_docs * 1_000_000, WEIGHT_HAS_DOCS as int),
        spec_term(
            "activity_span_in_months.powf(0.5)"@,
            spec_sqrt_of_months(v.activity_span_in_months),
            WEIGHT_ACTIVITY_SPAN as int,
        ),
        spec_term("releases"@, v.releases * 1_000_000, WEIGHT_RELEASES as int),
        spec_term(
            "non_yanked_releases"@,
            v.non_yanked_releases * 1_000_000,
            WEIGHT_NON_YANKED_RELEASES as int,
        ),
        spec_term("stable_releases"@, v.stable_releases * 1_000_000, WEIGHT_STABLE_RELEASES as int),
        spec_term(
            "last_2_non_yanked_releases_downloads.powf(0.5)"@,
            spec_sqrt_of_count(v.last_2_non_yanked_releases_downloads),
            WEIGHT_RECENT_DOWNLOADS as int,
        ),
        spec_term("dependants"@, v.dependants * 1_000_000, WEIGHT_DEPENDANTS as int),
        spec_term("hard_dependants"@, v.hard_dependants * 1_000_000, WEIGHT_HARD_DEPENDANTS as int),
        spec_term(
            "dependants_on_current_versions"@,
            v.dependants_on_current_versions * 1_000_000,
            WEIGHT_DEPENDANTS_ON_CURRENT as int,
        ),
        spec_term(
            "dependants_from_non_owners"@,
            v.dependants_from_non_owners * 1_000_000,
            WEIGHT_DEPENDANTS_FROM_NON_OWNERS as int,
        ),
    ]
}

/// The lines of a package's score table that take from the score.
pub open spec fn spec_crate_negative_terms(v: CrateScoreInfoView) -> Seq<ScoreTermView> {
    seq![
        spec_term(
            "months_since_last_release.powf(1.5)"@,
            spec_pow15_of_months(v.months_since_last_release),
            WEIGHT_SINCE_LAST_RELEASE as int,
        ),
        spec_term(
            "empty_or_all_yanked"@,
            v.empty_or_all_yanked * 1_000_000,
            WEIGHT_EMPTY_OR_ALL_YANKED as int,
        ),
    ]
}

/// The score table of a package: what adds to the score, then what takes
/// from it.
pub open spec fn spec_crate_table(v: CrateScoreInfoView) -> Seq<ScoreTermView> {
    spec_crate_positive_terms(v) + spec_crate_negative_terms(v)
}

/// The positive score of a package, in billionths.
pub open spec fn spec_crate_positive(v: CrateScoreInfoView) -> int {
    v.has_desc * 1_000_000 * WEIGHT_HAS_DESC + v.has_license * 1_000_000 * WEIGHT_HAS_LICENSE + v.has_docs
        * 1_000_000 * WEIGHT_HAS_DOCS + spec_sqrt_of_months(v.activity_span_in_months)
        * WEIGHT_ACTIVITY_SPAN + v.releases * 1_000_000 * WEIGHT_RELEASES + v.non_yanked_releases * 1_000_000
        * WEIGHT_NON_YANKED_RELEASES + v.stable_releases * 1_000_000 * WEIGHT_STABLE_RELEASES
        + spec_sqrt_of_count(v.last_2_non_yanked_releases_downloads) * WEIGHT_RECENT_DOWNLOADS
        + v.dependants * 1_000_000 * WEIGHT_DEPENDANTS + v.hard_dependants * 1_000_000
        * WEIGHT_HARD_DEPENDANTS + v.dependants_on_current_versions * 1_000_000
        * WEIGHT_DEPENDANTS_ON_CURRENT + v.dependants_from_non_owners * 1_000_000
        * WEIGHT_DEPENDANTS_FROM_NON_OWNERS
}

/// The negative score of a package, in billionths: never above zero.
pub open spec fn spec_crate_negative(v: CrateScoreInfoView) -> int {
    spec_pow15_of_months(v.months_since_last_release) * WEIGHT_SINCE_LAST_RELEASE
        + v.empty_or_all_yanked * 1_000_000 * WEIGHT_EMPTY_OR_ALL_YANKED
}

/// What a package is scored by. Times are in billionths of a month.
#[derive(Debug)]
pub struct CrateScoreInfo {
    // what adds to the score
    has_desc: usize,
    has_docs: usize,
    has_license: usize,
    activity_span_in_months: u128,
    releases: usize,
    non_yanked_releases: usize,
    stable_releases: usize,
    last_2_non_yanked_releases_downloads: u128,
    dependants: usize,
    hard_dependants: usize,
    dependants_on_current_versions: usize,
    dependants_from_non_owners: usize,
    // what takes from it
    months_since_last_release: u128,
    empty_or_all_yanked: usize,
}

impl View for CrateScoreInfo {
    type V = CrateScoreInfoView;

    closed spec fn view(&self) -> CrateScoreInfoView {
        CrateScoreInfoView {
            has_desc: self.has_desc as nat,
            has_docs: self.has_docs as nat,
            has_license: self.has_license as nat,
            activity_span_in_months: self.activity_span_in_months as nat,
            releases: self.releases as nat,
            non_yanked_releases: self.non_yanked_releases as nat,
            stable_releases: self.stable_releases as nat,
            last_2_non_yanked_releases_downloads: self.last_2_non_yanked_releases_downloads as nat,
            dependants: self.dependants as nat,
            hard_dependants: self.hard_dependants as nat,
            dependants_on_current_versions: self.dependants_on_current_versions as nat,
            dependants_from_non_owners: self.dependants_from_non_owners as nat,
            months_since_last_release: self.months_since_last_release as nat,
            empty_or_all_yanked: self.empty_or_all_yanked as nat,
        }
    }
}

/// Of the releases, no more are stable than were not withdrawn.
pub proof fn lemma_release_counts(rs: Seq<ReleaseView>)
    ensures
        spec_stable(rs).len() <= spec_non_yanked(rs).len() <= rs.len(),
    decreases rs.len(),
{
    reveal(Seq::filter);
    if rs.len() > 0 {
        lemma_release_counts(rs.drop_last());
    }
}

/// Two tests that agree on every value pick the same items.
pub proof fn lemma_filter_same<A>(s: Seq<A>, p: spec_fn(A) -> bool, q: spec_fn(A) -> bool)
    requires
        forall|x: A| #[trigger] p(x) == q(x),
    ensures
        s.filter(p) == s.filter(q),
    decreases s.len(),
{
    reveal(Seq::filter);
    if s.len() > 0 {
        lemma_filter_same(s.drop_last(), p, q);
    }
}

/// Which versions a requirement admits depends on which versions there are,
/// not on their order or number.
pub proof fn lemma_matches_any_same(req: Seq<char>, a: Seq<Seq<char>>, b: Seq<Seq<char>>)
    requires
        forall|s: Seq<char>| a.contains(s) <==> b.contains(s),
    ensures
        matches_any(req, a) == matches_any(req, b),
{
    if matches_any(req, a) {
        let k = choose|k: int| 0 <= k < a.len() && semver_matches(req, #[trigger] a[k]) == Some(true);
        assert(a.contains(a[k]));
        let j = choose|j: int| 0 <= j < b.len() && b[j] == a[k];
        assert(semver_matches(req, b[j]) == Some(true));
    }
    if matches_any(req, b) {
        let k = choose|k: int| 0 <= k < b.len() && semver_matches(req, #[trigger] b[k]) == Some(true);
        assert(b.contains(b[k]));
        let j = choose|j: int| 0 <= j < a.len() && a[j] == b[k];
        assert(semver_matches(req, a[j]) == Some(true));
    }
}

fn bool_count(b: bool) -> (r: usize)
    ensures
        r as nat == flag(b),
{
    if b {
        1
    } else {
        0
    }
}

fn count_hard(dependants: &Vec<Dependant>) -> (count: usize)
    ensures
        count as nat == dependant_views(dependants@).filter(hard_pred()).len(),
{
    let ghost views = dependant_views(dependants@);
    let mut count: usize = 0;
    let mut i: usize = 0;
    assert(views.take(0).filter(hard_pred()).len() == 0) by {
        reveal(Seq::filter);
    }
    while i < dependants.len()
        invariant
            i <= dependants.len(),
            views == dependant_views(dependants@),
            count <= i,
            count as nat == views.take(i as int).filter(hard_pred()).len(),
        decreases dependants.len() - i,
    {
        let dependant = &dependants[i];
        proof {
            assert(views.take(i as int + 1) =~= views.take(i as int).push(dependant@));
            views.take(i as int).lemma_filter_push(dependant@, hard_pred());
        }
        if dependant.default_features && !dependant.optional {
            count += 1;
        }
        i += 1;
    }
    assert(views.take(i as int) =~= views);
    count
}

fn matches_any_version(req: &str, versions: &Vec<&str>) -> (r: bool)
    ensures
        r == matches_any(req@, str_views(versions@)),
{
    let mut k: usize = 0;
    while k < versions.len()
        invariant
            k <= versions.len(),
            forall|j: int|
                0 <= j < k ==> semver_matches(req@, #[trigger] str_views(versions@)[j]) != Some(
                    true,
                ),
        decreases versions.len() - k,
    {
        assert(str_views(versions@)[k as int] == versions@[k as int]@);
        if requirement_matches(req, versions[k]) == Some(true) {
            return true;
        }
        k += 1;
    }
    false
}

fn count_on_versions(dependants: &Vec<Dependant>, versions: &Vec<&str>) -> (count: usize)
    ensures
        count as nat == dependant_views(dependants@).filter(
            on_versions_pred(str_views(versions@)),
        ).len(),
{
    let ghost views = dependant_views(dependants@);
    let ghost pred = on_versions_pred(str_views(versions@));
    let mut count: usize = 0;
    let mut i: usize = 0;
    assert(views.take(0).filter(pred).len() == 0) by {
        reveal(Seq::filter);
    }
    while i < dependants.len()
        invariant
            i <= dependants.len(),
            views == dependant_views(dependants@),
            pred == on_versions_pred(str_views(versions@)),
            count <= i,
            count as nat == views.take(i as int).filter(pred).len(),
        decreases dependants.len() - i,
    {
        let dependant = &dependants[i];
        proof {
            assert(views.take(i as int + 1) =~= views.take(i as int).push(dependant@));
            views.take(i as int).lemma_filter_push(dependant@, pred);
        }
        if matches_any_version(dependant.req.as_str(), versions) {
            count += 1;
        }
        i += 1;
    }
    assert(views.take(i as int) =~= views);
    count
}

fn is_owned_name(owners_crates: &Vec<CrateSearch>, name: &str) -> (r: bool)
    ensures
        r == is_owned(search_views(owners_crates@), name@),
{
    let ghost searches = search_views(owners_crates@);
    let mut i: usize = 0;
    while i < owners_crates.len()
        invariant
            i <= owners_crates.len(),
            searches == search_views(owners_crates@),
            forall|a: int, b: int|
                0 <= a < i && 0 <= b < searches[a].crates.len() ==> (
                #[trigger] searches[a].crates[b]).id != name@,
        decreases owners_crates.len() - i,
    {
        let search = &owners_crates[i];
        assert(searches[i as int] == search@);
        let mut j: usize = 0;
        while j < search.crates.len()
            invariant
                j <= search.crates.len(),
                i < owners_crates.len(),
                searches == search_views(owners_crates@),
                searches[i as int] == search@,
                forall|a: int, b: int|
                    0 <= a < i && 0 <= b < searches[a].crates.len() ==> (
                    #[trigger] searches[a].crates[b]).id != name@,
                forall|b: int| 0 <= b < j ==> (#[trigger] search@.crates[b]).id != name@,
            decreases search.crates.len() - j,
        {
            assert(search@.crates[j as int] == search.crates@[j as int]@);
            if str_eq(search.crates[j].id.as_str(), name) {
                assert(searches[i as int].crates[j as int].id == name@);
                return true;
            }
            j += 1;
        }
        i += 1;
    }
    false
}

fn count_by_owners(dependants: &Vec<Dependant>, owners_crates: &Vec<CrateSearch>) -> (count: usize)
    ensures
        count as nat == dependant_views(dependants@).filter(
            by_owners_pred(search_views(owners_crates@)),
        ).len(),
        count <= dependants@.len(),
{
    let ghost views = dependant_views(dependants@);
    let ghost pred = by_owners_pred(search_views(owners_crates@));
    let mut count: usize = 0;
    let mut i: usize = 0;
    assert(views.take(0).filter(pred).len() == 0) by {
        reveal(Seq::filter);
    }
    while i < dependants.len()
        invariant
            i <= dependants.len(),
            views == dependant_views(dependants@),
            pred == by_owners_pred(search_views(owners_crates@)),
            count <= i,
            count as nat == views.take(i as int).filter(pred).len(),
        decreases dependants.len() - i,
    {
        let dependant = &dependants[i];
        proof {
            assert(views.take(i as int + 1) =~= views.take(i as int).push(dependant@));
            views.take(i as int).lemma_filter_push(dependant@, pred);
        }
        if is_owned_name(owners_crates, dependant.crate_name.as_str()) {
            count += 1;
        }
        i += 1;
    }
    assert(views.take(i as int) =~= views);
    count
}

impl CrateScoreInfo {
    #[verifier::type_invariant]
    spec fn in_reach(self) -> bool {
        &&& self.last_2_non_yanked_releases_downloads <= 2 * 0xffff_ffff_ffff_ffff
        &&& self.activity_span_in_months <= MAX_MONTHS
        &&& self.months_since_last_release <= MAX_MONTHS
        &&& self.stable_releases <= self.non_yanked_releases <= self.releases
        &&& self.dependants_from_non_owners <= self.dependants
    }

    /// Gathers what a package is scored by: from its record, its dependants,
    /// the packages of its owners (one search for each owner) and the time
    /// `now`, in seconds since the epoch.
    pub fn from_crate_info(
        crate_info: &CrateInfo,
        dependants_info: &Vec<Dependant>,
        owners_crates: &Vec<CrateSearch>,
        now: i64,
    ) -> (r: Result<Self, EsrError>)
        ensures
            match r {
                Ok(score_info) => spec_score_info(
                    crate_info@,
                    dependant_views(dependants_info@),
                    search_views(owners_crates@),
                    now as int,
                ) == Ok::<CrateScoreInfoView, DateFault>(score_info@),
                Err(e) => spec_score_info(
                    crate_info@,
                    dependant_views(dependants_info@),
                    search_views(owners_crates@),
                    now as int,
                ) is Err && is_fault(
                    e,
                    spec_score_info(
                        crate_info@,
                        dependant_views(dependants_info@),
                        search_views(owners_crates@),
                        now as int,
                    )->Err_0,
                ),
            },
    {
        let general_info = &crate_info.general_info;

        let has_desc = bool_count(general_info.description.is_some());
        let has_docs = bool_count(general_info.documentation.is_some());
        let has_license = bool_count(crate_info.get_license().is_some());
        let empty_or_all_yanked = bool_count(crate_info.empty_or_all_yanked());

        let non_yanked = crate_info.non_yanked_releases();
        let releases = crate_info.releases.len();
        let non_yanked_releases = non_yanked.len();
        let stable_releases = crate_info.stable_releases().len();
        let ghost ny = spec_non_yanked(crate_info@.releases);
        let mut last_2_non_yanked_releases_downloads: u128 = 0;
        if non_yanked.len() > 0 {
            assert(ny[0] == non_yanked@[0]@);
            last_2_non_yanked_releases_downloads = non_yanked[0].downloads as u128;
        }
        if non_yanked.len() > 1 {
            assert(ny[1] == non_yanked@[1]@);
            last_2_non_yanked_releases_downloads = last_2_non_yanked_releases_downloads
                + non_yanked[1].downloads as u128;
        }
        // what depends on the time

        let activity_span_in_months = match crate_span_in_months(
            general_info.created_at.as_str(),
            general_info.updated_at.as_str(),
        ) {
            Ok(span) => span,
            Err(e) => {
                return Err(e);
            },
        };

        let last_release_date = if non_yanked.len() > 0 {
            assert(ny[0] == non_yanked@[0]@);
            non_yanked[0].created_at.as_str()
        } else {
            general_info.created_at.as_str()
        };
        let months_since_last_release = match crate_age_in_months(last_release_date, now) {
            Ok(age) => age,
            Err(e) => {
                return Err(e);
            },
        };

        // reverse dependencies
        let dependants = dependants_info.len();

        let current_versions = match crate_info.get_current_versions(now) {
            Ok(versions) => versions,
            Err(e) => {
                return Err(e);
            },
        };
        let hard_dependants = count_hard(dependants_info);
        let dependants_on_current_versions = count_on_versions(dependants_info, &current_versions);
        proof {
            let current = spec_current_candidates(crate_info@, now as int)->Ok_0;
            let sorted = str_views(current_versions@);
            assert forall|d: DependantView| #[trigger]
                on_versions_pred(sorted)(d) == on_versions_pred(current)(d) by {
                lemma_matches_any_same(d.req, sorted, current);
            }
            lemma_filter_same(
                dependant_views(dependants_info@),
                on_versions_pred(sorted),
                on_versions_pred(current),
            );
        }

        proof {
            lemma_release_counts(crate_info@.releases);
        }

        let dependants_by_owners = count_by_owners(dependants_info, owners_crates);
        let dependants_from_non_owners = dependants - dependants_by_owners;

        Ok(
            CrateScoreInfo {
                has_desc,
                has_docs,
                has_license,
                activity_span_in_months,
                releases,
                non_yanked_releases,
                stable_releases,
                last_2_non_yanked_releases_downloads,
                dependants,
                hard_dependants,
                dependants_on_current_versions,
                dependants_from_non_owners,
                months_since_last_release,
                empty_or_all_yanked,
            },
        )
    }

    /// The score table of the package with its positive and its negative
    /// score, both in billionths.
    pub fn mk_score(&self) -> (r: (Vec<ScoreTerm>, i128, i128))
        ensures
            table_view(r.0@) == spec_crate_table(self@),
            r.1 == spec_crate_positive(self@),
            r.2 == spec_crate_negative(self@),
            r.1 == spec_gain(table_view(r.0@)),
            r.2 == spec_loss(table_view(r.0@)),
            0 <= r.1 <= MAX_SCORE,
            -MAX_SCORE <= r.2 <= 0,
    {
        proof {
            use_type_invariant(self);
        }
        let mut positive_score: i128 = 0;
        let mut negative_score: i128 = 0;
        let mut table: Vec<ScoreTerm> = Vec::new();
        assert(table_view(table@) =~= Seq::<ScoreTermView>::empty());

        // what adds to the score
        score_add(
            &mut table,
            &mut positive_score,
            "has_desc",
            self.has_desc as u128 * 1_000_000,
            WEIGHT_HAS_DESC,
        );
        score_add(
            &mut table,
            &mut positive_score,
            "has_license",
            self.has_license as u128 * 1_000_000,
            WEIGHT_HAS_LICENSE,
        );
        score_add(
            &mut table,
            &mut positive_score,
            "has_docs",
            self.has_docs as u128 * 1_000_000,
            WEIGHT_HAS_DOCS,
        );
        score_add(
            &mut table,
            &mut positive_score,
            "activity_span_in_months.powf(0.5)",
            sqrt_of_months(self.activity_span_in_months),
            WEIGHT_ACTIVITY_SPAN,
        );
        score_add(
            &mut table,
            &mut positive_score,
            "releases",
            self.releases as u128 * 1_000_000,
            WEIGHT_RELEASES,
        );
        score_add(
            &mut table,
            &mut positive_score,
            "non_yanked_releases",
            self.non_yanked_releases as u128 * 1_000_000,
            WEIGHT_NON_YANKED_RELEASES,
        );
        score_add(
            &mut table,
            &mut positive_score,
            "stable_releases",
            self.stable_releases as u128 * 1_000_000,
            WEIGHT_STABLE_RELEASES,
        );
        score_add(
            &mut table,
            &mut positive_score,
            "last_2_non_yanked_releases_downloads.powf(0.5)",
            sqrt_of_count(self.last_2_non_yanked_releases_downloads),
            WEIGHT_RECENT_DOWNLOADS,
        );
        score_add(
            &mut table,
            &mut positive_score,
            "dependants",
            self.dependants as u128 * 1_000_000,
            WEIGHT_DEPENDANTS,
        );
        score_add(
            &mut table,
            &mut positive_score,
            "hard_dependants",
            self.hard_dependants as u128 * 1_000_000,
            WEIGHT_HARD_DEPENDANTS,
        );
        score_add(
            &mut table,
            &mut positive_score,
            "dependants_on_current_versions",
            self.dependants_on_current_versions as u128 * 1_000_000,
            WEIGHT_DEPENDANTS_ON_CURRENT,
        );
        score_add(
            &mut table,
            &mut positive_score,
            "dependants_from_non_owners",
            self.dependants_from_non_owners as u128 * 1_000_000,
            WEIGHT_DEPENDANTS_FROM_NON_OWNERS,
        );
        assert(table_view(table@) =~= spec_crate_positive_terms(self@));

        // what takes from it
        score_add(
            &mut table,
            &mut negative_score,
            "months_since_last_release.powf(1.5)",
            pow15_of_months(self.months_since_last_release),
            WEIGHT_SINCE_LAST_RELEASE,
        );
        score_add(
            &mut table,
            &mut negative_score,
            "empty_or_all_yanked",
            self.empty_or_all_yanked as u128 * 1_000_000,
            WEIGHT_EMPTY_OR_ALL_YANKED,
        );
        assert(table_view(table@) =~= spec_crate_table(self@));

        (table, positive_score, negative_score)
    }

    /// The releases by their standing: how many are stable, how many are
    /// pre-releases that were not withdrawn, and how many were withdrawn.
    pub fn release_counts(&self) -> (r: (usize, usize, usize))
        ensures
            r.0 == self@.stable_releases,
            r.1 == self@.non_yanked_releases - self@.stable_releases,
            r.2 == self@.releases - self@.non_yanked_releases,
            r.0 + r.1 + r.2 == self@.releases,
    {
        proof {
            use_type_invariant(self);
        }
        (
            self.stable_releases,
            self.non_yanked_releases - self.stable_releases,
            self.releases - self.non_yanked_releases,
        )
    }

    pub fn get_dependants(&self) -> (r: usize)
        ensures
            r == self@.dependants,
    {
        self.dependants
    }

    pub fn get_dependants_from_non_owners(&self) -> (r: usize)
        ensures
            r == self@.dependants_from_non_owners,
    {
        self.dependants_from_non_owners
    }

    pub fn get_releases(&self) -> (r: usize)
        ensures
            r == self@.releases,
    {
        self.releases
    }

    pub fn get_non_yanked_releases(&self) -> (r: usize)
        ensures
            r == self@.non_yanked_releases,
    {
        self.non_yanked_releases
    }

    pub fn get_stable_releases(&self) -> (r: usize)
        ensures
            r == self@.stable_releases,
    {
        self.stable_releases
    }

    /// The age of the last release, in billionths of a month.
    pub fn get_months_since_last_release(&self) -> (r: u128)
        ensures
            r == self@.months_since_last_release,
    {
        self.months_since_last_release
    }
}


// ---------------------------------------------------------------------------
// A package with its score
// ---------------------------------------------------------------------------

/// A package with what it is scored by and its score.
pub struct CrateInfoWithScoreView {
    pub crate_info: CrateInfoView,
    pub crate_score_info: CrateScoreInfoView,
    /// In billionths.
    pub score_positive: int,
    /// In billionths.
    pub score_negative: int,
    pub score_table: Seq<ScoreTermView>,
}

/// A package with the score that follows from what it is scored by.
pub open spec fn spec_scored_crate(
    crate_info: CrateInfoView,
    crate_score_info: CrateScoreInfoView,
) -> CrateInfoWithScoreView {
    CrateInfoWithScoreView {
        crate_info,
        crate_score_info,
        score_positive: spec_crate_positive(crate_score_info),
        score_negative: spec_crate_negative(crate_score_info),
        score_table: spec_crate_table(crate_score_info),
    }
}

/// A package with what it is scored by and its score.
#[derive(Debug)]
pub struct CrateInfoWithScore {
    crate_info: CrateInfo,
    crate_score_info: CrateScoreInfo,
    score_positive: i128,
    score_negative: i128,
    score_table: Vec<ScoreTerm>,
}

impl View for CrateInfoWithScore {
    type V = CrateInfoWithScoreView;

    closed spec fn view(&self) -> CrateInfoWithScoreView {
        CrateInfoWithScoreView {
            crate_info: self.crate_info@,
            crate_score_info: self.crate_score_info@,
            score_positive: self.score_positive as int,
            score_negative: self.score_negative as int,
            score_table: table_view(self.score_table@),
        }
    }
}

impl CrateInfoWithScore {
    #[verifier::type_invariant]
    spec fn scored(self) -> bool {
        &&& self@ == spec_scored_crate(self.crate_info@, self.crate_score_info@)
        &&& self.score_positive == spec_gain(table_view(self.score_table@))
        &&& self.score_negative == spec_loss(table_view(self.score_table@))
        &&& 0 <= self.score_positive <= MAX_SCORE
        &&& -MAX_SCORE <= self.score_negative <= 0
    }

    /// Scores a package: from its record, its dependants, the packages of its
    /// owners (one search for each owner) and the time `now`, in seconds
    /// since the epoch.
    pub fn from_info(
        crate_info: CrateInfo,
        dependants_info: &Vec<Dependant>,
        owners_crates: &Vec<CrateSearch>,
        now: i64,
    ) -> (r: Result<Self, EsrError>)
        ensures
            match r {
                Ok(scored) => spec_score_info(
                    crate_info@,
                    dependant_views(dependants_info@),
                    search_views(owners_crates@),
                    now as int,
                ) is Ok && scored@ == spec_scored_crate(
                    crate_info@,
                    spec_score_info(
                        crate_info@,
                        dependant_views(dependants_info@),
                        search_views(owners_crates@),
                        now as int,
                    )->Ok_0,
                ),
                Err(e) => spec_score_info(
                    crate_info@,
                    dependant_views(dependants_info@),
                    search_views(owners_crates@),
                    now as int,
                ) is Err && is_fault(
                    e,
                    spec_score_info(
                        crate_info@,
                        dependant_views(dependants_info@),
                        search_views(owners_crates@),
                        now as int,
                    )->Err_0,
                ),
            },
    {
        let crate_score_info = match CrateScoreInfo::from_crate_info(
            &crate_info,
            dependants_info,
            owners_crates,
            now,
        ) {
            Ok(score_info) => score_info,
            Err(e) => {
                return Err(e);
            },
        };
        let (score_table, score_positive, score_negative) = crate_score_info.mk_score();

        Ok(
            CrateInfoWithScore {
                crate_info,
                crate_score_info,
                score_positive,
                score_negative,
                score_table,
            },
        )
    }

    /// Scores a package from what came of fetching its parts: its record, its
    /// dependants, and the packages of its owners. Where a part failed, the
    /// error is that of the first that did, and nothing is scored.
    pub fn from_parts(
        crate_info: Result<CrateInfo, EsrError>,
        dependants_info: Result<Vec<Dependant>, EsrError>,
        owners_crates: Result<Vec<CrateSearch>, EsrError>,
        now: i64,
    ) -> (r: Result<Self, EsrError>)
        ensures
            crate_info is Err ==> r == Err::<Self, EsrError>(crate_info->Err_0),
            crate_info is Ok && dependants_info is Err ==> r == Err::<Self, EsrError>(
                dependants_info->Err_0,
            ),
            crate_info is Ok && dependants_info is Ok && owners_crates is Err ==> r == Err::<
                Self,
                EsrError,
            >(owners_crates->Err_0),
            crate_info is Ok && dependants_info is Ok && owners_crates is Ok ==> match r {
                Ok(scored) => spec_score_info(
                    crate_info->Ok_0@,
                    dependant_views(dependants_info->Ok_0@),
                    search_views(owners_crates->Ok_0@),
                    now as int,
                ) is Ok && scored@ == spec_scored_crate(
                    crate_info->Ok_0@,
                    spec_score_info(
                        crate_info->Ok_0@,
                        dependant_views(dependants_info->Ok_0@),
                        search_views(owners_crates->Ok_0@),
                        now as int,
                    )->Ok_0,
                ),
                Err(e) => spec_score_info(
                    crate_info->Ok_0@,
                    dependant_views(dependants_info->Ok_0@),
                    search_views(owners_crates->Ok_0@),
                    now as int,
                ) is Err && is_fault(
                    e,
                    spec_score_info(
                        crate_info->Ok_0@,
                        dependant_views(dependants_info->Ok_0@),
                        search_views(owners_crates->Ok_0@),
                        now as int,
                    )->Err_0,
                ),
            },
    {
        let crate_info = match crate_info {
            Ok(part) => part,
            Err(e) => {
                return Err(e);
            },
        };
        let dependants_info = match dependants_info {
            Ok(part) => part,
            Err(e) => {
                return Err(e);
            },
        };
        let owners_crates = match owners_crates {
            Ok(part) => part,
            Err(e) => {
                return Err(e);
            },
        };
        Self::from_info(crate_info, &dependants_info, &owners_crates, now)
    }

    pub fn get_info(&self) -> (r: &CrateInfo)
        ensures
            r@ == self@.crate_info,
    {
        &self.crate_info
    }

    pub fn get_score_info(&self) -> (r: &CrateScoreInfo)
        ensures
            r@ == self@.crate_score_info,
    {
        &self.crate_score_info
    }

    /// The positive and the negative score, in billionths.
    pub fn get_score_tuple(&self) -> (r: (i128, i128))
        ensures
            r.0 == self@.score_positive,
            r.1 == self@.score_negative,
            self@ == spec_scored_crate(self@.crate_info, self@.crate_score_info),
            r.0 == spec_gain(self@.score_table),
            r.1 == spec_loss(self@.score_table),
            0 <= r.0 <= MAX_SCORE,
            -MAX_SCORE <= r.1 <= 0,
    {
        proof {
            use_type_invariant(self);
        }
        (self.score_positive, self.score_negative)
    }

    pub fn get_score_table(&self) -> (r: &[ScoreTerm])
        ensures
            table_view(r@) == self@.score_table,
            self@.score_table == spec_crate_table(self@.crate_score_info),
    {
        proof {
            use_type_invariant(self);
        }
        self.score_table.as_slice()
    }
}


// ---------------------------------------------------------------------------
// What holds of every package
// ---------------------------------------------------------------------------

/// The total score of a package, in billionths.
pub open spec fn spec_crate_total(v: CrateScoreInfoView) -> int {
    spec_crate_positive(v) + spec_crate_negative(v)
}

/// What a package scores but for the penalty on a degenerate one.
pub open spec fn spec_crate_merits(v: CrateScoreInfoView) -> int {
    spec_crate_positive(v) + spec_pow15_of_months(v.months_since_last_release)
        * WEIGHT_SINCE_LAST_RELEASE
}

/// The penalty on a degenerate package, in billionths: 5000 points.
pub open spec fn degenerate_penalty() -> int {
    5_000_000_000_000
}

/// A package without a release, or whose declared latest version is `0.0.0`,
/// or whose releases were all withdrawn, is flagged as degenerate whenever it
/// can be scored at all, and then its negative score holds the whole penalty.
pub proof fn lemma_degenerate_is_flagged(
    info: CrateInfoView,
    dependants: Seq<DependantView>,
    owners_crates: Seq<CrateSearchView>,
    now: int,
)
    requires
        info.releases.len() == 0 || info.general_info.max_version == "0.0.0"@ || (forall|i: int|
            0 <= i < info.releases.len() ==> info.releases[i].yanked),
        spec_score_info(info, dependants, owners_crates, now) is Ok,
    ensures
        spec_empty_or_all_yanked(info),
        spec_score_info(info, dependants, owners_crates, now)->Ok_0.empty_or_all_yanked == 1,
        spec_crate_negative(spec_score_info(info, dependants, owners_crates, now)->Ok_0)
            <= -degenerate_penalty(),
{
    let v = spec_score_info(info, dependants, owners_crates, now)->Ok_0;
    assert(spec_pow15_of_months(v.months_since_last_release) * WEIGHT_SINCE_LAST_RELEASE <= 0)
        by (nonlinear_arith)
        requires
            spec_pow15_of_months(v.months_since_last_release) >= 0,
            WEIGHT_SINCE_LAST_RELEASE < 0,
    ;
}

/// The penalty sets a degenerate package back by exactly 5000 points: its
/// total is its merits less the penalty, that of any other package is its
/// merits.
pub proof fn lemma_degenerate_penalty(v: CrateScoreInfoView)
    requires
        v.empty_or_all_yanked <= 1,
    ensures
        spec_crate_total(v) == spec_crate_merits(v) - v.empty_or_all_yanked * degenerate_penalty(),
{
}

/// A degenerate package scores below every package that is not degenerate,
/// unless its merits lie 5000 points or more above those of the other.
pub proof fn lemma_degenerate_ranks_below(degenerate: CrateScoreInfoView, other: CrateScoreInfoView)
    requires
        degenerate.empty_or_all_yanked == 1,
        other.empty_or_all_yanked == 0,
        spec_crate_merits(degenerate) - spec_crate_merits(other) < degenerate_penalty(),
    ensures
        spec_crate_total(degenerate) < spec_crate_total(other),
{
}

/// The current versions hold the version that the package declares as its
/// latest, whether or not a release has it; they are in order, and none
/// stands among them twice.
pub proof fn lemma_current_versions(info: CrateInfoView, now: int, versions: Seq<Seq<char>>)
    requires
        spec_current_candidates(info, now) is Ok,
        is_sorted_set_of(versions, spec_current_candidates(info, now)->Ok_0),
    ensures
        versions.contains(info.general_info.max_version),
        strictly_sorted(versions),
        versions.no_duplicates(),
{
    let candidates = spec_current_candidates(info, now)->Ok_0;
    assert(candidates[0] == info.general_info.max_version);
    assert(candidates.contains(info.general_info.max_version));
    assert forall|i: int, j: int| 0 <= i < versions.len() && 0 <= j < versions.len() && i
        != j implies versions[i] != versions[j] by {
        lemma_str_lt_irreflexive(versions[i]);
        if i < j {
            assert(spec_str_lt(versions[i], versions[j]));
        } else {
            assert(spec_str_lt(versions[j], versions[i]));
        }
    }
}

/// The score of a package follows from its record, its dependants, the
/// packages of its owners and the time alone: whoever scores the same again
/// has the same table and the same scores.
pub proof fn lemma_crate_score_repeatable(
    info: CrateInfoView,
    dependants: Seq<DependantView>,
    owners_crates: Seq<CrateSearchView>,
    now: int,
    first: CrateInfoWithScoreView,
    second: CrateInfoWithScoreView,
)
    requires
        spec_score_info(info, dependants, owners_crates, now) is Ok,
        first == spec_scored_crate(
            info,
            spec_score_info(info, dependants, owners_crates, now)->Ok_0,
        ),
        second == spec_scored_crate(
            info,
            spec_score_info(info, dependants, owners_crates, now)->Ok_0,
        ),
    ensures
        first.score_table == second.score_table,
        first.score_positive == second.score_positive,
        first.score_negative == second.score_negative,
        first == second,
{
}

} // verus!
