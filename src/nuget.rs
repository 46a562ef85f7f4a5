//! The package feed: discovery of its package-content address, version lists,
//! and the addresses of package archives.

use vstd::prelude::*;
use crate::error::AcquireError;
use crate::json::{
    error_text, opt_views, read_string_array, read_string_pairs, resource_pairs, string_pairs_of,
    strings_of_array,
};
use crate::text::{opt_view, views};
use crate::version::{is_last_max, parse_spec, select_max};

verus! {

/// The service index of the feed.
pub const ROSLYN_NUGET_FEED_INDEX: &'static str = "https://api.nuget.org/v3/index.json";

/// The resource type whose address serves package contents.
pub const PACKAGE_BASE_ADDRESS_TYPE: &'static str = "PackageBaseAddress/3.0.0";

/// The lower-case form of `s`, as `str::to_lowercase` gives it.
pub uninterp spec fn lower_of(s: Seq<char>) -> Seq<char>;

/// Relies on `str::to_lowercase`: the result depends on the characters alone.
#[verifier::external_body]
fn to_lowercase(s: &str) -> (r: String)
    ensures
        r@ == lower_of(s@),
{
    s.to_lowercase()
}

/// A resource of the service index: its declared type and its address, where
/// they are strings.
#[derive(Debug)]
pub struct ServiceResource {
    pub resource_type: Option<String>,
    pub id: Option<String>,
}

/// `s` without the slashes at its end.
pub open spec fn trim_slashes(s: Seq<char>) -> Seq<char>
    decreases s.len(),
{
    if s.len() > 0 && s.last() == '/' {
        trim_slashes(s.drop_last())
    } else {
        s
    }
}

/// Resource `i` is the first of type `marker`.
pub open spec fn first_of_type(rs: Seq<(Option<Seq<char>>, Option<Seq<char>>)>, marker: Seq<char>, i: int) -> bool {
    &&& 0 <= i < rs.len()
    &&& rs[i].0 == Some(marker)
    &&& forall|j: int| 0 <= j < i ==> rs[j].0 != Some(marker)
}

pub open spec fn has_base(rs: Seq<(Option<Seq<char>>, Option<Seq<char>>)>) -> bool {
    exists|i: int| first_of_type(rs, PACKAGE_BASE_ADDRESS_TYPE@, i) && rs[i].1 is Some
}

/// The package-content address that resources `rs` (type, address) declare: the
/// address of the first resource of that type, without trailing slashes; none
/// where that resource has no address, or there is no such resource.
pub open spec fn declared_base(rs: Seq<(Option<Seq<char>>, Option<Seq<char>>)>) -> Option<Seq<char>> {
    if has_base(rs) {
        let i = choose|i: int| first_of_type(rs, PACKAGE_BASE_ADDRESS_TYPE@, i) && rs[i].1 is Some;
        Some(trim_slashes(rs[i].1->0))
    } else {
        None
    }
}

/// The resources that a service index document lists, if it is one.
pub open spec fn index_resources(body: Seq<u8>) -> Option<Seq<(Option<Seq<char>>, Option<Seq<char>>)>> {
    match string_pairs_of(body, "resources"@, "@type"@, "@id"@) {
        Some(Some(rs)) => Some(rs),
        _ => None,
    }
}

/// The strings among `l`, in order.
pub open spec fn present(l: Seq<Option<Seq<char>>>) -> Seq<Seq<char>>
    decreases l.len(),
{
    if l.len() == 0 {
        Seq::empty()
    } else {
        let rest = present(l.drop_last());
        match l.last() {
            Some(s) => rest.push(s),
            None => rest,
        }
    }
}

/// The version strings that a version list document lists, if it is one.
pub open spec fn listed_versions(body: Seq<u8>) -> Option<Seq<Seq<char>>> {
    match strings_of_array(body, "versions"@) {
        Some(Some(l)) => Some(present(l)),
        _ => None,
    }
}

/// Some string of `vs` spells a version.
pub open spec fn any_version(vs: Seq<Seq<char>>) -> bool {
    exists|j: int| 0 <= j < vs.len() && (#[trigger] parse_spec(vs[j])) is Some
}

proof fn lemma_first_of_type_unique(rs: Seq<(Option<Seq<char>>, Option<Seq<char>>)>, m: Seq<char>, i: int, k: int)
    requires
        first_of_type(rs, m, i),
        first_of_type(rs, m, k),
    ensures
        i == k,
{
    if i < k {
        assert(rs[i].0 != Some(m));
    } else if k < i {
        assert(rs[k].0 != Some(m));
    }
}

pub fn trim_trailing_slashes(s: &str) -> (r: String)
    ensures
        r@ == trim_slashes(s@),
{
    let cs = crate::text::chars_of(s);
    let mut n: usize = cs.len();
    assert(cs@.take(n as int) =~= cs@);
    while n > 0 && cs[n - 1] == '/'
        invariant
            n <= cs@.len(),
            cs@ == s@,
            trim_slashes(s@) == trim_slashes(cs@.take(n as int)),
        decreases n,
    {
        assert(cs@.take(n as int).drop_last() =~= cs@.take(n - 1));
        n = n - 1;
    }
    assert(cs@.take(n as int) =~= s@.subrange(0, n as int));
    String::from_str(s.substring_char(0, n))
}

/// The package-content address that the resources declare; it fails where the
/// first resource of that type has no address, or there is none.
pub fn select_base_address(resources: &Vec<ServiceResource>) -> (r: Result<String, AcquireError>)
    ensures
        r is Ok <==> declared_base(resource_pairs(resources@)) is Some,
        r matches Ok(b) ==> declared_base(resource_pairs(resources@)) == Some(b@),
        r matches Err(e) ==> e is MetadataParseFailure,
{
    let ghost rs = resource_pairs(resources@);
    let marker = String::from_str(PACKAGE_BASE_ADDRESS_TYPE);
    let mut i: usize = 0;
    while i < resources.len()
        invariant
            i <= resources@.len() == rs.len(),
            rs == resource_pairs(resources@),
            marker@ == PACKAGE_BASE_ADDRESS_TYPE@,
            forall|j: int| 0 <= j < i ==> rs[j].0 != Some(PACKAGE_BASE_ADDRESS_TYPE@),
        decreases resources@.len() - i,
    {
        assert(rs[i as int] == (opt_view(resources@[i as int].resource_type), opt_view(
            resources@[i as int].id,
        )));
        let is_marker = match &resources[i].resource_type {
            Some(t) => *t == marker,
            None => false,
        };
        if is_marker {
            assert(first_of_type(rs, PACKAGE_BASE_ADDRESS_TYPE@, i as int));
            proof {
                assert forall|k: int|
                    first_of_type(rs, PACKAGE_BASE_ADDRESS_TYPE@, k) implies k == i by {
                    lemma_first_of_type_unique(rs, PACKAGE_BASE_ADDRESS_TYPE@, i as int, k);
                }
            }
            return match &resources[i].id {
                Some(id) => Ok(trim_trailing_slashes(id.as_str())),
                None => Err(
                    AcquireError::MetadataParseFailure(
                        String::from_str(
                            "PackageBaseAddress/3.0.0 not found in NuGet service index",
                        ),
                    ),
                ),
            };
        }
        i = i + 1;
    }
    Err(
        AcquireError::MetadataParseFailure(
            String::from_str("PackageBaseAddress/3.0.0 not found in NuGet service index"),
        ),
    )
}

/// The address of the version list of a package, from its lower-case id.
pub fn index_url_of(base: &str, lower_id: &str) -> (r: String)
    ensures
        r@ == base@ + "/"@ + lower_id@ + "/index.json"@,
{
    String::from_str(base).concat("/").concat(lower_id).concat("/index.json")
}

/// The address of a package archive, from its lower-case id and version.
pub fn package_url_of(base: &str, lower_id: &str, lower_version: &str) -> (r: String)
    ensures
        r@ == base@ + "/"@ + lower_id@ + "/"@ + lower_version@ + "/"@ + lower_id@ + "."@
            + lower_version@ + ".nupkg"@,
{
    String::from_str(base).concat("/").concat(lower_id).concat("/").concat(lower_version).concat(
        "/",
    ).concat(lower_id).concat(".").concat(lower_version).concat(".nupkg")
}

/// The latest version among those listed, as listed; fails where none of them
/// spells a version.
pub fn latest_listed(package_id: &str, versions: &Vec<String>) -> (r: Result<String, AcquireError>)
    ensures
        r is Ok <==> any_version(views(versions@)),
        r matches Ok(v) ==> exists|i: int|
            is_last_max(views(versions@), i) && v@ == views(versions@)[i],
        r matches Err(e) ==> e is VersionParseFailure,
{
    let ghost vs = views(versions@);
    let r = select_max(versions);
    proof {
        assert forall|j: int| 0 <= j < versions@.len() implies vs[j] == versions@[j]@ by {}
        if any_version(vs) {
            let j = choose|j: int| 0 <= j < vs.len() && (#[trigger] parse_spec(vs[j])) is Some;
            assert(parse_spec(versions@[j]@) is Some);
        }
        if r is Some {
            let i = choose|i: int| is_last_max(vs, i) && r->0@ == versions@[i]@;
            assert(parse_spec(vs[i]) is Some);
        }
    }
    match r {
        Some(v) => Ok(v),
        None => Err(
            AcquireError::VersionParseFailure(
                String::from_str("no parseable versions found for NuGet package '").concat(
                    package_id,
                ).concat("'"),
            ),
        ),
    }
}

/// A client of the package feed; it discovers the package-content address once
/// and keeps it.
pub struct NuGetClient {
    package_base_address: Option<String>,
}

impl NuGetClient {
    pub fn new() -> (r: NuGetClient)
        ensures
            r.base_address_view() is None,
    {
        NuGetClient { package_base_address: None }
    }

    pub closed spec fn base_address_view(&self) -> Option<Seq<char>> {
        opt_view(self.package_base_address)
    }

    /// The package-content address, once discovered.
    pub fn base_address(&self) -> (r: Option<String>)
        ensures
            opt_view(r) == self.base_address_view(),
    {
        match &self.package_base_address {
            Some(b) => Some(b.clone()),
            None => None,
        }
    }

    /// Takes the service index fetched from `ROSLYN_NUGET_FEED_INDEX`, finds the
    /// package-content address in it and keeps it.
    pub fn record_service_index(&mut self, body: &[u8]) -> (r: Result<String, AcquireError>)
        ensures
            r is Ok <==> (index_resources(body@) is Some && declared_base(
                index_resources(body@)->0,
            ) is Some),
            r matches Ok(b) ==> declared_base(index_resources(body@)->0) == Some(b@)
                && final(self).base_address_view() == Some(b@),
            r is Err ==> final(self).base_address_view() == old(self).base_address_view(),
            r matches Err(e) ==> e is MetadataParseFailure,
    {
        let resources = match read_string_pairs(body, "resources", "@type", "@id") {
            Ok(Some(rs)) => rs,
            Ok(None) => {
                return Err(
                    AcquireError::MetadataParseFailure(
                        String::from_str("invalid NuGet service index: missing 'resources' array"),
                    ),
                );
            },
            Err(e) => {
                return Err(
                    AcquireError::MetadataParseFailure(
                        String::from_str("failed to parse NuGet service index: ").concat(
                            error_text(&e).as_str(),
                        ),
                    ),
                );
            },
        };
        let base = match select_base_address(&resources) {
            Ok(b) => b,
            Err(e) => {
                return Err(e);
            },
        };
        self.package_base_address = Some(base.clone());
        Ok(base)
    }

    /// The address of the version list of a package.
    pub fn version_index_url(base: &str, package_id: &str) -> (r: String)
        ensures
            r@ == base@ + "/"@ + lower_of(package_id@) + "/index.json"@,
    {
        let lower_id = to_lowercase(package_id);
        index_url_of(base, lower_id.as_str())
    }

    /// The address of the archive of a package version.
    pub fn package_url(base: &str, package_id: &str, version: &str) -> (r: String)
        ensures
            r@ == base@ + "/"@ + lower_of(package_id@) + "/"@ + lower_of(version@) + "/"@
                + lower_of(package_id@) + "."@ + lower_of(version@) + ".nupkg"@,
    {
        let lower_id = to_lowercase(package_id);
        let lower_version = to_lowercase(version);
        package_url_of(base, lower_id.as_str(), lower_version.as_str())
    }

    /// Takes the version list fetched from `version_index_url` and gives the
    /// latest version in it.
    pub fn latest_version_from_index(package_id: &str, body: &[u8]) -> (r: Result<String, AcquireError>)
        ensures
            r is Ok <==> (listed_versions(body@) is Some && any_version(
                listed_versions(body@)->0,
            )),
            r matches Ok(v) ==> exists|i: int|
                is_last_max(listed_versions(body@)->0, i) && v@ == listed_versions(body@)->0[i],
            r matches Err(e) ==> (e is MetadataParseFailure <==> listed_versions(body@) is None),
            r matches Err(e) ==> (e is MetadataParseFailure || e is VersionParseFailure),
    {
        let listed = match read_string_array(body, "versions") {
            Ok(Some(l)) => l,
            Ok(None) => {
                return Err(
                    AcquireError::MetadataParseFailure(
                        String::from_str("no versions array for NuGet package '").concat(
                            package_id,
                        ).concat("'"),
                    ),
                );
            },
            Err(e) => {
                return Err(
                    AcquireError::MetadataParseFailure(
                        String::from_str("failed to parse NuGet version index for '").concat(
                            package_id,
                        ).concat("': ").concat(error_text(&e).as_str()),
                    ),
                );
            },
        };
        let ghost l = opt_views(listed@);
        let mut versions: Vec<String> = Vec::new();
        let mut i: usize = 0;
        while i < listed.len()
            invariant
                i <= listed@.len() == l.len(),
                l == opt_views(listed@),
                views(versions@) == present(l.take(i as int)),
            decreases listed@.len() - i,
        {
            assert(l.take(i + 1).drop_last() =~= l.take(i as int));
            assert(l.take(i + 1).last() == opt_view(listed@[i as int]));
            match &listed[i] {
                Some(s) => {
                    let ghost before = versions@;
                    versions.push(s.clone());
                    assert(views(versions@) =~= views(before).push(s@));
                },
                None => {},
            }
            i = i + 1;
        }
        assert(l.take(i as int) =~= l);
        latest_listed(package_id, &versions)
    }
}

} // verus!
