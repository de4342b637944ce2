//! One dependency record of the catalog and its structural validation.

use vstd::prelude::*;

verus! {

/// Metadata that a configuration document declares for one external
/// dependency.
#[derive(Debug, Clone, PartialEq)]
pub struct Dependency {
    pub project_name: String,
    pub project_desc: String,
    pub project_url: String,
    pub version: String,
    /// Hexadecimal SHA-256 digest of the archive.
    pub sha256: String,
    /// URLs to download the dependency from.
    pub urls: Vec<String>,
    /// Prefix to remove when extracting the archive.
    pub strip_prefix: Option<String>,
    /// Release date, nominally `YYYY-MM-DD`.
    pub release_date: Option<String>,
    pub use_category: Option<Vec<String>>,
    pub license: Option<String>,
    pub license_url: Option<String>,
    /// Common Platform Enumeration.
    pub cpe: Option<String>,
    pub implied_untracked_deps: Option<Vec<String>>,
}

/// A dependency record as mathematical values.
pub struct DependencyView {
    pub project_name: Seq<char>,
    pub project_desc: Seq<char>,
    pub project_url: Seq<char>,
    pub version: Seq<char>,
    pub sha256: Seq<char>,
    pub urls: Seq<Seq<char>>,
    pub strip_prefix: Option<Seq<char>>,
    pub release_date: Option<Seq<char>>,
    pub use_category: Option<Seq<Seq<char>>>,
    pub license: Option<Seq<char>>,
    pub license_url: Option<Seq<char>>,
    pub cpe: Option<Seq<char>>,
    pub implied_untracked_deps: Option<Seq<Seq<char>>>,
}

pub open spec fn string_views(v: Seq<String>) -> Seq<Seq<char>> {
    v.map_values(|s: String| s@)
}

pub open spec fn opt_string_view(o: Option<String>) -> Option<Seq<char>> {
    match o {
        Some(s) => Some(s@),
        None => None,
    }
}

pub open spec fn opt_strings_view(o: Option<Vec<String>>) -> Option<Seq<Seq<char>>> {
    match o {
        Some(v) => Some(string_views(v@)),
        None => None,
    }
}

impl View for Dependency {
    type V = DependencyView;

    open spec fn view(&self) -> DependencyView {
        DependencyView {
            project_name: self.project_name@,
            project_desc: self.project_desc@,
            project_url: self.project_url@,
            version: self.version@,
            sha256: self.sha256@,
            urls: string_views(self.urls@),
            strip_prefix: opt_string_view(self.strip_prefix),
            release_date: opt_string_view(self.release_date),
            use_category: opt_strings_view(self.use_category),
            license: opt_string_view(self.license),
            license_url: opt_string_view(self.license_url),
            cpe: opt_string_view(self.cpe),
            implied_untracked_deps: opt_strings_view(self.implied_untracked_deps),
        }
    }
}

/// One structural rule that a record can break.
#[derive(Debug, Clone, Copy, PartialEq, Eq, Structural)]
pub enum Violation {
    EmptyProjectName,
    EmptyProjectDesc,
    EmptyProjectUrl,
    EmptyVersion,
    InvalidSha256,
    EmptyUrls,
}

pub open spec fn is_hex_char(c: char) -> bool {
    ('0' <= c && c <= '9') || ('a' <= c && c <= 'f') || ('A' <= c && c <= 'F')
}

/// Exactly 64 hexadecimal digits, in either case: 256 bits.
pub open spec fn is_sha256_hex(s: Seq<char>) -> bool {
    s.len() == 64 && forall|i: int| 0 <= i < s.len() ==> is_hex_char(#[trigger] s[i])
}

/// Whether record `d` breaks rule `r`.
pub open spec fn violated(d: DependencyView, r: Violation) -> bool {
    match r {
        Violation::EmptyProjectName => d.project_name.len() == 0,
        Violation::EmptyProjectDesc => d.project_desc.len() == 0,
        Violation::EmptyProjectUrl => d.project_url.len() == 0,
        Violation::EmptyVersion => d.version.len() == 0,
        Violation::InvalidSha256 => !is_sha256_hex(d.sha256),
        Violation::EmptyUrls => d.urls.len() == 0,
    }
}

pub open spec fn push_if(s: Seq<Violation>, d: DependencyView, r: Violation) -> Seq<Violation> {
    if violated(d, r) {
        s.push(r)
    } else {
        s
    }
}

/// Every rule that `d` breaks, in a fixed order.
pub open spec fn violations(d: DependencyView) -> Seq<Violation> {
    let s0 = push_if(Seq::empty(), d, Violation::EmptyProjectName);
    let s1 = push_if(s0, d, Violation::EmptyProjectDesc);
    let s2 = push_if(s1, d, Violation::EmptyProjectUrl);
    let s3 = push_if(s2, d, Violation::EmptyVersion);
    let s4 = push_if(s3, d, Violation::InvalidSha256);
    push_if(s4, d, Violation::EmptyUrls)
}

impl Violation {
    pub open spec fn spec_text(self) -> Seq<char> {
        match self {
            Violation::EmptyProjectName => "project_name cannot be empty"@,
            Violation::EmptyProjectDesc => "project_desc cannot be empty"@,
            Violation::EmptyProjectUrl => "project_url cannot be empty"@,
            Violation::EmptyVersion => "version cannot be empty"@,
            Violation::InvalidSha256 => "sha256 must be 64 hexadecimal characters (256 bits)"@,
            Violation::EmptyUrls => "urls cannot be empty"@,
        }
    }

    /// The rule in words.
    pub fn text(self) -> (r: &'static str)
        ensures
            r@ == self.spec_text(),
    {
        match self {
            Violation::EmptyProjectName => "project_name cannot be empty",
            Violation::EmptyProjectDesc => "project_desc cannot be empty",
            Violation::EmptyProjectUrl => "project_url cannot be empty",
            Violation::EmptyVersion => "version cannot be empty",
            Violation::InvalidSha256 => "sha256 must be 64 hexadecimal characters (256 bits)",
            Violation::EmptyUrls => "urls cannot be empty",
        }
    }
}

/// Every structural rule that one record breaks.
#[derive(Debug, Clone)]
pub struct ValidationError {
    pub project_name: String,
    pub version: String,
    pub violations: Vec<Violation>,
}

/// One line per broken rule.
pub open spec fn violation_lines(vs: Seq<Violation>) -> Seq<char>
    decreases vs.len(),
{
    if vs.len() == 0 {
        Seq::empty()
    } else {
        violation_lines(vs.drop_last()) + "\n  - "@ + vs.last().spec_text()
    }
}

pub open spec fn validation_message(name: Seq<char>, version: Seq<char>, vs: Seq<Violation>) -> Seq<char> {
    "Validation failed for '"@ + name + "' @ '"@ + version + "':"@ + violation_lines(vs)
}

/// What a call of `validate` on a record with view `d` may return: success
/// exactly when no rule is broken, and otherwise every broken rule, in order,
/// with the record's name and version.
pub open spec fn reports_violations(d: DependencyView, r: Result<(), ValidationError>) -> bool {
    &&& (r is Ok <==> violations(d).len() == 0)
    &&& (r matches Err(e) ==> {
        &&& e.project_name@ == d.project_name
        &&& e.version@ == d.version
        &&& e.violations@ == violations(d)
    })
}

/// A rule is reported exactly when the record breaks it, so a record that
/// breaks several rules has all of them reported together.
pub proof fn lemma_every_violation_reported(d: DependencyView, r: Violation)
    ensures
        violations(d).contains(r) <==> violated(d, r),
{
    let s0 = push_if(Seq::empty(), d, Violation::EmptyProjectName);
    let s1 = push_if(s0, d, Violation::EmptyProjectDesc);
    let s2 = push_if(s1, d, Violation::EmptyProjectUrl);
    let s3 = push_if(s2, d, Violation::EmptyVersion);
    let s4 = push_if(s3, d, Violation::InvalidSha256);
    let s5 = push_if(s4, d, Violation::EmptyUrls);
    assert forall|s: Seq<Violation>, q: Violation, x: Violation|
        #[trigger] push_if(s, d, q).contains(x) <==> (s.contains(x) || (x == q && violated(d, q))) by {
        if violated(d, q) {
            if push_if(s, d, q).contains(x) && x != q {
                let k = choose|k: int| 0 <= k < s.push(q).len() && s.push(q)[k] == x;
                assert(s[k] == x);
            }
            if s.contains(x) {
                let k = choose|k: int| 0 <= k < s.len() && s[k] == x;
                assert(s.push(q)[k] == x);
            }
            if x == q {
                assert(s.push(q)[s.len() as int] == x);
            }
        }
    }
    assert(!Seq::<Violation>::empty().contains(r));
    assert(violations(d) == s5);
}

/// A hash that is not exactly 64 hexadecimal digits is always reported.
pub proof fn lemma_bad_hash_reported(d: DependencyView)
    requires
        d.sha256.len() != 64 || exists|i: int| 0 <= i < d.sha256.len() && !is_hex_char(#[trigger] d.sha256[i]),
    ensures
        violations(d).contains(Violation::InvalidSha256),
        violations(d).len() > 0,
{
    lemma_every_violation_reported(d, Violation::InvalidSha256);
}

/// An empty URL list is always reported, whatever the other fields hold.
pub proof fn lemma_empty_urls_reported(d: DependencyView)
    requires
        d.urls.len() == 0,
    ensures
        violations(d).contains(Violation::EmptyUrls),
        violations(d).len() > 0,
{
    lemma_every_violation_reported(d, Violation::EmptyUrls);
}

/// Validation reads the record only: any two results it may give for one
/// record are the same.
pub proof fn lemma_validate_idempotent(
    d: DependencyView,
    r1: Result<(), ValidationError>,
    r2: Result<(), ValidationError>,
)
    requires
        reports_violations(d, r1),
        reports_violations(d, r2),
    ensures
        r1 is Ok <==> r2 is Ok,
        r1 matches Err(e1) ==> r2 matches Err(e2) && e1.project_name@ == e2.project_name@
            && e1.version@ == e2.version@ && e1.violations@ == e2.violations@,
{
}

impl ValidationError {
    /// The failure in words: the record's name and version, then each broken
    /// rule on its own line.
    pub fn message(&self) -> (r: String)
        ensures
            r@ == validation_message(self.project_name@, self.version@, self.violations@),
    {
        let mut m = String::new();
        m.append("Validation failed for '");
        m.append(self.project_name.as_str());
        m.append("' @ '");
        m.append(self.version.as_str());
        m.append("':");
        let mut i: usize = 0;
        while i < self.violations.len()
            invariant
                i <= self.violations@.len(),
                m@ == validation_message(
                    self.project_name@,
                    self.version@,
                    self.violations@.subrange(0, i as int),
                ),
            decreases self.violations.len() - i,
        {
            let ghost before = m@;
            assert(self.violations@.subrange(0, i + 1).drop_last()
                =~= self.violations@.subrange(0, i as int));
            m.append("\n  - ");
            m.append(self.violations[i].text());
            i = i + 1;
            assert(m@ =~= validation_message(
                self.project_name@,
                self.version@,
                self.violations@.subrange(0, i as int),
            ));
        }
        assert(self.violations@.subrange(0, i as int) =~= self.violations@);
        m
    }
}

/// Whether `s` is exactly 64 hexadecimal digits.
pub fn is_valid_sha256(s: &String) -> (r: bool)
    ensures
        r == is_sha256_hex(s@),
{
    let t = s.as_str();
    if t.unicode_len() != 64 {
        return false;
    }
    let mut i: usize = 0;
    while i < 64
        invariant
            i <= 64,
            t@ == s@,
            s@.len() == 64,
            forall|j: int| 0 <= j < i ==> is_hex_char(#[trigger] s@[j]),
        decreases 64 - i,
    {
        let c = t.get_char(i);
        let hex = ('0' <= c && c <= '9') || ('a' <= c && c <= 'f') || ('A' <= c && c <= 'F');
        if !hex {
            return false;
        }
        i = i + 1;
    }
    true
}

impl Dependency {
    /// A record with the mandatory fields given and every optional field
    /// absent. Nothing is checked here: see `validate`.
    pub fn new(
        project_name: String,
        project_desc: String,
        project_url: String,
        version: String,
        sha256: String,
        urls: Vec<String>,
    ) -> (r: Self)
        ensures
            r.project_name == project_name,
            r.project_desc == project_desc,
            r.project_url == project_url,
            r.version == version,
            r.sha256 == sha256,
            r.urls == urls,
            r.strip_prefix is None,
            r.release_date is None,
            r.use_category is None,
            r.license is None,
            r.license_url is None,
            r.cpe is None,
            r.implied_untracked_deps is None,
    {
        Dependency {
            project_name,
            project_desc,
            project_url,
            version,
            sha256,
            urls,
            strip_prefix: None,
            release_date: None,
            use_category: None,
            license: None,
            license_url: None,
            cpe: None,
            implied_untracked_deps: None,
        }
    }

    /// Checks every structural rule and reports all that are broken at once.
    pub fn validate(&self) -> (r: Result<(), ValidationError>)
        ensures
            reports_violations(self@, r),
    {
        let ghost d = self@;
        let mut errors: Vec<Violation> = Vec::new();
        if self.project_name.as_str().is_empty() {
            errors.push(Violation::EmptyProjectName);
        }
        assert(errors@ =~= push_if(Seq::empty(), d, Violation::EmptyProjectName));
        let ghost s0 = errors@;
        if self.project_desc.as_str().is_empty() {
            errors.push(Violation::EmptyProjectDesc);
        }
        assert(errors@ =~= push_if(s0, d, Violation::EmptyProjectDesc));
        let ghost s1 = errors@;
        if self.project_url.as_str().is_empty() {
            errors.push(Violation::EmptyProjectUrl);
        }
        assert(errors@ =~= push_if(s1, d, Violation::EmptyProjectUrl));
        let ghost s2 = errors@;
        if self.version.as_str().is_empty() {
            errors.push(Violation::EmptyVersion);
        }
        assert(errors@ =~= push_if(s2, d, Violation::EmptyVersion));
        let ghost s3 = errors@;
        if !is_valid_sha256(&self.sha256) {
            errors.push(Violation::InvalidSha256);
        }
        assert(errors@ =~= push_if(s3, d, Violation::InvalidSha256));
        let ghost s4 = errors@;
        if self.urls.len() == 0 {
            errors.push(Violation::EmptyUrls);
        }
        assert(errors@ =~= push_if(s4, d, Violation::EmptyUrls));
        if errors.len() == 0 {
            Ok(())
        } else {
            Err(
                ValidationError {
                    project_name: self.project_name.clone(),
                    version: self.version.clone(),
                    violations: errors,
                },
            )
        }
    }
}

} // verus!
