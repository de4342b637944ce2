//! Conversion of an evaluated configuration document into a typed catalog.

use vstd::prelude::*;
use crate::catalog::RepositoryLocations;
use crate::dependency::{
    Dependency, DependencyView, is_sha256_hex, lemma_every_violation_reported, violations,
};
use crate::value::{Value, collect_strings, dict_get, lookup, strings_of};

verus! {

/// The symbol that a configuration document binds to its catalog.
pub const LOCATIONS_SYMBOL: &'static str = "REPOSITORY_LOCATIONS_SPEC";

/// A field of a dependency entry.
#[derive(Debug, Clone, Copy, PartialEq, Eq, Structural)]
pub enum Field {
    ProjectName,
    ProjectDesc,
    ProjectUrl,
    Version,
    Sha256,
    Urls,
    StripPrefix,
    ReleaseDate,
    UseCategory,
    License,
    LicenseUrl,
    Cpe,
    ImpliedUntrackedDeps,
}

impl Field {
    pub open spec fn key(self) -> Seq<char> {
        match self {
            Field::ProjectName => "project_name"@,
            Field::ProjectDesc => "project_desc"@,
            Field::ProjectUrl => "project_url"@,
            Field::Version => "version"@,
            Field::Sha256 => "sha256"@,
            Field::Urls => "urls"@,
            Field::StripPrefix => "strip_prefix"@,
            Field::ReleaseDate => "release_date"@,
            Field::UseCategory => "use_category"@,
            Field::License => "license"@,
            Field::LicenseUrl => "license_url"@,
            Field::Cpe => "cpe"@,
            Field::ImpliedUntrackedDeps => "implied_untracked_deps"@,
        }
    }

    /// The key under which the field is written in a document.
    pub fn name(self) -> (r: &'static str)
        ensures
            r@ == self.key(),
    {
        match self {
            Field::ProjectName => "project_name",
            Field::ProjectDesc => "project_desc",
            Field::ProjectUrl => "project_url",
            Field::Version => "version",
            Field::Sha256 => "sha256",
            Field::Urls => "urls",
            Field::StripPrefix => "strip_prefix",
            Field::ReleaseDate => "release_date",
            Field::UseCategory => "use_category",
            Field::License => "license",
            Field::LicenseUrl => "license_url",
            Field::Cpe => "cpe",
            Field::ImpliedUntrackedDeps => "implied_untracked_deps",
        }
    }
}

/// Why one entry could not be read as a dependency record.
#[derive(Debug, Clone, Copy, PartialEq, Eq, Structural)]
pub enum RecordError {
    /// The entry is not a mapping.
    NotAMapping,
    MissingField(Field),
    NotAString(Field),
    NotAList(Field),
    /// The element at this index of the field's list is not a string.
    ItemNotString(Field, usize),
}

/// Why a document could not be read as a catalog.
#[derive(Debug, Clone)]
pub enum ParseError {
    /// The document does not bind the catalog symbol.
    SymbolMissing,
    /// The catalog symbol is bound to something other than a mapping.
    NotAMapping,
    /// A key of the catalog is not a string.
    KeyNotString,
    /// The entry under `name` is not a valid record.
    InvalidEntry { name: String, error: RecordError },
}

/// A `ParseError` as mathematical values.
pub enum CatalogFault {
    SymbolMissing,
    NotAMapping,
    KeyNotString,
    InvalidEntry(Seq<char>, RecordError),
}

impl View for ParseError {
    type V = CatalogFault;

    open spec fn view(&self) -> CatalogFault {
        match self {
            ParseError::SymbolMissing => CatalogFault::SymbolMissing,
            ParseError::NotAMapping => CatalogFault::NotAMapping,
            ParseError::KeyNotString => CatalogFault::KeyNotString,
            ParseError::InvalidEntry { name, error } => CatalogFault::InvalidEntry(name@, *error),
        }
    }
}

/// A mandatory string field.
pub open spec fn string_field(entries: Seq<(Value, Value)>, f: Field) -> Result<Seq<char>, RecordError> {
    match lookup(entries, f.key()) {
        None => Err(RecordError::MissingField(f)),
        Some(Value::Str(s)) => Ok(s@),
        Some(_) => Err(RecordError::NotAString(f)),
    }
}

/// A mandatory list-of-strings field.
pub open spec fn list_field(entries: Seq<(Value, Value)>, f: Field) -> Result<Seq<Seq<char>>, RecordError> {
    match lookup(entries, f.key()) {
        None => Err(RecordError::MissingField(f)),
        Some(Value::List(items)) => match strings_of(items@) {
            Ok(p) => Ok(p),
            Err(i) => Err(RecordError::ItemNotString(f, i as usize)),
        },
        Some(_) => Err(RecordError::NotAList(f)),
    }
}

/// An optional string field: absent when missing or not a string.
pub open spec fn opt_string_field(entries: Seq<(Value, Value)>, f: Field) -> Option<Seq<char>> {
    match lookup(entries, f.key()) {
        Some(Value::Str(s)) => Some(s@),
        _ => None,
    }
}

/// An optional list-of-strings field: absent when missing or malformed.
pub open spec fn opt_list_field(entries: Seq<(Value, Value)>, f: Field) -> Option<Seq<Seq<char>>> {
    match lookup(entries, f.key()) {
        Some(Value::List(items)) => match strings_of(items@) {
            Ok(p) => Some(p),
            Err(_) => None,
        },
        _ => None,
    }
}

/// The first failure among the mandatory fields, in declaration order.
pub open spec fn record_fault(e: Seq<(Value, Value)>) -> Option<RecordError> {
    if string_field(e, Field::ProjectName) is Err {
        Some(string_field(e, Field::ProjectName)->Err_0)
    } else if string_field(e, Field::ProjectDesc) is Err {
        Some(string_field(e, Field::ProjectDesc)->Err_0)
    } else if string_field(e, Field::ProjectUrl) is Err {
        Some(string_field(e, Field::ProjectUrl)->Err_0)
    } else if string_field(e, Field::Version) is Err {
        Some(string_field(e, Field::Version)->Err_0)
    } else if string_field(e, Field::Sha256) is Err {
        Some(string_field(e, Field::Sha256)->Err_0)
    } else if list_field(e, Field::Urls) is Err {
        Some(list_field(e, Field::Urls)->Err_0)
    } else {
        None
    }
}

/// The record that the entries of a mapping describe, once no mandatory field
/// fails.
pub open spec fn record_view(e: Seq<(Value, Value)>) -> DependencyView {
    DependencyView {
        project_name: string_field(e, Field::ProjectName)->Ok_0,
        project_desc: string_field(e, Field::ProjectDesc)->Ok_0,
        project_url: string_field(e, Field::ProjectUrl)->Ok_0,
        version: string_field(e, Field::Version)->Ok_0,
        sha256: string_field(e, Field::Sha256)->Ok_0,
        urls: list_field(e, Field::Urls)->Ok_0,
        strip_prefix: opt_string_field(e, Field::StripPrefix),
        release_date: opt_string_field(e, Field::ReleaseDate),
        use_category: opt_list_field(e, Field::UseCategory),
        license: opt_string_field(e, Field::License),
        license_url: opt_string_field(e, Field::LicenseUrl),
        cpe: opt_string_field(e, Field::Cpe),
        implied_untracked_deps: opt_list_field(e, Field::ImpliedUntrackedDeps),
    }
}

/// The record that a value describes, or why it describes none.
pub open spec fn record_of(v: Value) -> Result<DependencyView, RecordError> {
    match v {
        Value::Dict(es) => match record_fault(es@) {
            Some(e) => Err(e),
            None => Ok(record_view(es@)),
        },
        _ => Err(RecordError::NotAMapping),
    }
}

/// The catalog that the entries of a mapping describe: later entries replace
/// earlier ones under the same name, and the first bad entry fails it all.
pub open spec fn catalog_of(entries: Seq<(Value, Value)>) -> Result<
    Map<Seq<char>, DependencyView>,
    CatalogFault,
>
    decreases entries.len(),
{
    if entries.len() == 0 {
        Ok(Map::empty())
    } else {
        match catalog_of(entries.drop_last()) {
            Err(f) => Err(f),
            Ok(m) => match entries.last().0 {
                Value::Str(name) => match record_of(entries.last().1) {
                    Ok(d) => Ok(m.insert(name@, d)),
                    Err(e) => Err(CatalogFault::InvalidEntry(name@, e)),
                },
                _ => Err(CatalogFault::KeyNotString),
            },
        }
    }
}

/// The catalog that the value bound to the catalog symbol describes.
pub open spec fn locations_of(v: Value) -> Result<Map<Seq<char>, DependencyView>, CatalogFault> {
    match v {
        Value::Dict(es) => catalog_of(es@),
        _ => Err(CatalogFault::NotAMapping),
    }
}

/// The catalog that an evaluated document, a mapping from its top-level
/// symbols to their values, describes.
pub open spec fn document_of(module: Value) -> Result<Map<Seq<char>, DependencyView>, CatalogFault> {
    match module {
        Value::Dict(es) => match lookup(es@, LOCATIONS_SYMBOL@) {
            Some(v) => locations_of(v),
            None => Err(CatalogFault::SymbolMissing),
        },
        _ => Err(CatalogFault::SymbolMissing),
    }
}

/// The fields that every entry must hold.
pub open spec fn is_mandatory(f: Field) -> bool {
    f == Field::ProjectName || f == Field::ProjectDesc || f == Field::ProjectUrl || f
        == Field::Version || f == Field::Sha256 || f == Field::Urls
}

/// Field `f` is present with the shape it must have: a list of strings for
/// the URLs, a string otherwise.
pub open spec fn well_typed(e: Seq<(Value, Value)>, f: Field) -> bool {
    if f == Field::Urls {
        lookup(e, f.key()) matches Some(Value::List(items)) && strings_of(items@) is Ok
    } else {
        lookup(e, f.key()) matches Some(Value::Str(_))
    }
}

/// The string bound to field `f`, empty where there is none.
pub open spec fn string_at(e: Seq<(Value, Value)>, f: Field) -> Seq<char> {
    match lookup(e, f.key()) {
        Some(Value::Str(s)) => s@,
        _ => Seq::empty(),
    }
}

/// A mapping whose mandatory fields are well typed, with non-empty strings, a
/// 64-digit hexadecimal hash and at least one URL, reads as a record that
/// holds those values verbatim and that breaks no rule.
pub proof fn lemma_valid_entry_reads_verbatim(v: Value)
    requires
        v is Dict,
        forall|f: Field| is_mandatory(f) ==> #[trigger] well_typed(v->Dict_0@, f),
        string_at(v->Dict_0@, Field::ProjectName).len() > 0,
        string_at(v->Dict_0@, Field::ProjectDesc).len() > 0,
        string_at(v->Dict_0@, Field::ProjectUrl).len() > 0,
        string_at(v->Dict_0@, Field::Version).len() > 0,
        is_sha256_hex(string_at(v->Dict_0@, Field::Sha256)),
        list_field(v->Dict_0@, Field::Urls)->Ok_0.len() > 0,
    ensures
        record_of(v) is Ok,
        violations(record_of(v)->Ok_0).len() == 0,
        record_of(v)->Ok_0.project_name == string_at(v->Dict_0@, Field::ProjectName),
        record_of(v)->Ok_0.project_desc == string_at(v->Dict_0@, Field::ProjectDesc),
        record_of(v)->Ok_0.project_url == string_at(v->Dict_0@, Field::ProjectUrl),
        record_of(v)->Ok_0.version == string_at(v->Dict_0@, Field::Version),
        record_of(v)->Ok_0.sha256 == string_at(v->Dict_0@, Field::Sha256),
        lookup(v->Dict_0@, Field::Urls.key()) matches Some(Value::List(items))
            && strings_of(items@) == Ok::<Seq<Seq<char>>, int>(record_of(v)->Ok_0.urls),
{
    let e = v->Dict_0@;
    assert(well_typed(e, Field::ProjectName));
    assert(well_typed(e, Field::ProjectDesc));
    assert(well_typed(e, Field::ProjectUrl));
    assert(well_typed(e, Field::Version));
    assert(well_typed(e, Field::Sha256));
    assert(well_typed(e, Field::Urls));
    let d = record_of(v)->Ok_0;
    if violations(d).len() > 0 {
        let r = violations(d)[0];
        lemma_every_violation_reported(d, r);
        assert(violations(d).contains(r));
    }
}

/// An entry that lacks exactly one mandatory field, the others being well
/// typed, fails to read, and the failure names that field.
pub proof fn lemma_missing_field_named(v: Value, f: Field)
    requires
        v is Dict,
        is_mandatory(f),
        lookup(v->Dict_0@, f.key()) is None,
        forall|g: Field| is_mandatory(g) && g != f ==> #[trigger] well_typed(v->Dict_0@, g),
    ensures
        record_of(v) == Err::<DependencyView, RecordError>(RecordError::MissingField(f)),
{
    let e = v->Dict_0@;
    assert(f != Field::ProjectName ==> well_typed(e, Field::ProjectName));
    assert(f != Field::ProjectDesc ==> well_typed(e, Field::ProjectDesc));
    assert(f != Field::ProjectUrl ==> well_typed(e, Field::ProjectUrl));
    assert(f != Field::Version ==> well_typed(e, Field::Version));
    assert(f != Field::Sha256 ==> well_typed(e, Field::Sha256));
    assert(f != Field::Urls ==> well_typed(e, Field::Urls));
}

fn get_string(entries: &Vec<(Value, Value)>, f: Field) -> (r: Result<String, RecordError>)
    ensures
        match r {
            Ok(s) => string_field(entries@, f) == Ok::<Seq<char>, RecordError>(s@),
            Err(e) => string_field(entries@, f) == Err::<Seq<char>, RecordError>(e),
        },
{
    match dict_get(entries, f.name()) {
        None => Err(RecordError::MissingField(f)),
        Some(v) => match v.as_str() {
            Some(s) => Ok(s.clone()),
            None => Err(RecordError::NotAString(f)),
        },
    }
}

fn get_optional_string(entries: &Vec<(Value, Value)>, f: Field) -> (r: Option<String>)
    ensures
        opt_string_field(entries@, f) == crate::dependency::opt_string_view(r),
{
    match dict_get(entries, f.name()) {
        Some(v) => match v.as_str() {
            Some(s) => Some(s.clone()),
            None => None,
        },
        None => None,
    }
}

fn get_string_vec(entries: &Vec<(Value, Value)>, f: Field) -> (r: Result<Vec<String>, RecordError>)
    ensures
        match r {
            Ok(v) => list_field(entries@, f) == Ok::<Seq<Seq<char>>, RecordError>(
                crate::dependency::string_views(v@),
            ),
            Err(e) => list_field(entries@, f) == Err::<Seq<Seq<char>>, RecordError>(e),
        },
{
    match dict_get(entries, f.name()) {
        None => Err(RecordError::MissingField(f)),
        Some(v) => match v.as_list() {
            Some(items) => match collect_strings(items) {
                Ok(strings) => Ok(strings),
                Err(i) => Err(RecordError::ItemNotString(f, i)),
            },
            None => Err(RecordError::NotAList(f)),
        },
    }
}

fn get_optional_string_vec(entries: &Vec<(Value, Value)>, f: Field) -> (r: Option<Vec<String>>)
    ensures
        opt_list_field(entries@, f) == crate::dependency::opt_strings_view(r),
{
    match dict_get(entries, f.name()) {
        Some(v) => match v.as_list() {
            Some(items) => match collect_strings(items) {
                Ok(strings) => Some(strings),
                Err(_) => None,
            },
            None => None,
        },
        None => None,
    }
}

/// Reads the catalog out of an evaluated configuration document.
pub struct StarlarkParser;

impl StarlarkParser {
    /// Reads the catalog bound to `LOCATIONS_SYMBOL` in `module`, the mapping
    /// from an evaluated document's top-level symbols to their values.
    pub fn parse(module: &Value) -> (r: Result<RepositoryLocations, ParseError>)
        ensures
            match r {
                Ok(c) => c.wf() && document_of(*module) == Ok::<
                    Map<Seq<char>, DependencyView>,
                    CatalogFault,
                >(c@),
                Err(e) => document_of(*module) == Err::<
                    Map<Seq<char>, DependencyView>,
                    CatalogFault,
                >(e@),
            },
    {
        match module.as_dict() {
            Some(symbols) => match dict_get(symbols, LOCATIONS_SYMBOL) {
                Some(v) => Self::value_to_repository_locations(v),
                None => Err(ParseError::SymbolMissing),
            },
            None => Err(ParseError::SymbolMissing),
        }
    }

    /// Reads a catalog out of the value bound to the catalog symbol.
    pub fn value_to_repository_locations(value: &Value) -> (r: Result<RepositoryLocations, ParseError>)
        ensures
            match r {
                Ok(c) => c.wf() && locations_of(*value) == Ok::<
                    Map<Seq<char>, DependencyView>,
                    CatalogFault,
                >(c@),
                Err(e) => locations_of(*value) == Err::<
                    Map<Seq<char>, DependencyView>,
                    CatalogFault,
                >(e@),
            },
    {
        let entries = match value.as_dict() {
            Some(entries) => entries,
            None => return Err(ParseError::NotAMapping),
        };
        let mut result = RepositoryLocations::new();
        let mut i: usize = 0;
        assert(entries@.subrange(0, 0) =~= Seq::<(Value, Value)>::empty());
        while i < entries.len()
            invariant
                i <= entries@.len(),
                locations_of(*value) == catalog_of(entries@),
                result.wf(),
                catalog_of(entries@.subrange(0, i as int)) == Ok::<
                    Map<Seq<char>, DependencyView>,
                    CatalogFault,
                >(result@),
            decreases entries.len() - i,
        {
            assert(entries@.subrange(0, i + 1).drop_last() =~= entries@.subrange(0, i as int));
            assert(entries@.subrange(0, i + 1).last() == entries@[i as int]);
            let (key, val) = (&entries[i].0, &entries[i].1);
            let name = match key.as_str() {
                Some(name) => name,
                None => {
                    assert(catalog_of(entries@.subrange(0, i + 1)) == Err::<
                        Map<Seq<char>, DependencyView>,
                        CatalogFault,
                    >(CatalogFault::KeyNotString));
                    proof { lemma_catalog_err_extends(entries@, i as int + 1); }
                    return Err(ParseError::KeyNotString);
                },
            };
            match Self::value_to_dependency(val) {
                Ok(dep) => {
                    let n = name.clone();
                    assert(n@ == name@);
                    result.insert(n, dep);
                },
                Err(error) => {
                    proof { lemma_catalog_err_extends(entries@, i as int + 1); }
                    let n = name.clone();
                    assert(catalog_of(entries@.subrange(0, i + 1)) == Err::<
                        Map<Seq<char>, DependencyView>,
                        CatalogFault,
                    >(CatalogFault::InvalidEntry(n@, error)));
                    proof { lemma_catalog_err_extends(entries@, i as int + 1); }
                    return Err(ParseError::InvalidEntry { name: n, error });
                },
            }
            i = i + 1;
        }
        assert(entries@.subrange(0, i as int) =~= entries@);
        Ok(result)
    }

    /// Reads one dependency record out of a mapping. Optional fields that are
    /// missing or malformed are left absent. The record is not validated.
    pub fn value_to_dependency(value: &Value) -> (r: Result<Dependency, RecordError>)
        ensures
            match r {
                Ok(d) => record_of(*value) == Ok::<DependencyView, RecordError>(d@),
                Err(e) => record_of(*value) == Err::<DependencyView, RecordError>(e),
            },
    {
        let entries = match value.as_dict() {
            Some(entries) => entries,
            None => return Err(RecordError::NotAMapping),
        };
        let project_name = match get_string(entries, Field::ProjectName) {
            Ok(s) => s,
            Err(e) => return Err(e),
        };
        let project_desc = match get_string(entries, Field::ProjectDesc) {
            Ok(s) => s,
            Err(e) => return Err(e),
        };
        let project_url = match get_string(entries, Field::ProjectUrl) {
            Ok(s) => s,
            Err(e) => return Err(e),
        };
        let version = match get_string(entries, Field::Version) {
            Ok(s) => s,
            Err(e) => return Err(e),
        };
        let sha256 = match get_string(entries, Field::Sha256) {
            Ok(s) => s,
            Err(e) => return Err(e),
        };
        let urls = match get_string_vec(entries, Field::Urls) {
            Ok(v) => v,
            Err(e) => return Err(e),
        };
        let dep = Dependency {
            project_name,
            project_desc,
            project_url,
            version,
            sha256,
            urls,
            strip_prefix: get_optional_string(entries, Field::StripPrefix),
            release_date: get_optional_string(entries, Field::ReleaseDate),
            use_category: get_optional_string_vec(entries, Field::UseCategory),
            license: get_optional_string(entries, Field::License),
            license_url: get_optional_string(entries, Field::LicenseUrl),
            cpe: get_optional_string(entries, Field::Cpe),
            implied_untracked_deps: get_optional_string_vec(entries, Field::ImpliedUntrackedDeps),
        };
        assert(dep@ == record_view(entries@));
        Ok(dep)
    }
}

/// A failure in a prefix of the entries is the failure of the whole catalog.
proof fn lemma_catalog_err_extends(entries: Seq<(Value, Value)>, n: int)
    requires
        0 <= n <= entries.len(),
        catalog_of(entries.subrange(0, n)) is Err,
    ensures
        catalog_of(entries) == catalog_of(entries.subrange(0, n)),
    decreases entries.len() - n,
{
    if n == entries.len() {
        assert(entries.subrange(0, n) =~= entries);
    } else {
        assert(entries.subrange(0, n + 1).drop_last() =~= entries.subrange(0, n));
        lemma_catalog_err_extends(entries, n + 1);
    }
}

} // verus!
