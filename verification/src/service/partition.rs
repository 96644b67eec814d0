//! Where each service keeps its browser profile: one partition directory per
//! service under the shared cache root, and the marker that flags a
//! partition for deletion at the next start. Paths are the raw bytes of the
//! path, so a directory whose name is not UTF-8 is kept as it is.

use vstd::prelude::*;
use vstd::utf8::encode_utf8;
use crate::paths::{lemma_join_bytes_below, lemma_relative_name, path_join_bytes, spec_path_join_bytes};
use crate::text::{mentions_any, mentions_any_origin, push_str, views_of};
use crate::service::config::ServiceConfig;

verus! {

/// `dirs::data_dir()`: the user's data directory, as the raw bytes of the
/// path (`None` when there is none). It depends on the environment, so
/// nothing is claimed of it.
#[verifier::external_body]
fn user_data_dir() -> Option<Vec<u8>> {
    dirs::data_dir().map(|p| p.into_os_string().into_encoded_bytes())
}

/// The name of the file whose presence flags a partition for deletion.
pub const WIPE_MARKER: &'static str = ".wipe-on-restart";

/// The old shared profile that partitions inherit their logins from.
pub const SHARED_PROFILE: &'static str = "Default";

/// The cache root, as path bytes, given the platform's data directory:
/// `<dir or ~/.local/share>/ferdirust/cef_cache`.
pub open spec fn spec_cef_root(base: Option<Seq<u8>>) -> Seq<u8> {
    let dir = match base {
        Some(b) => b,
        None => encode_utf8("~/.local/share"@),
    };
    spec_path_join_bytes(
        spec_path_join_bytes(dir, encode_utf8("ferdirust"@)),
        encode_utf8("cef_cache"@),
    )
}

/// The partition of service `id` under `root`: `<root>/svc-<id>`.
pub open spec fn spec_partition_dir(root: Seq<u8>, id: Seq<char>) -> Seq<u8> {
    spec_path_join_bytes(root, encode_utf8("svc-"@ + id))
}

/// The cache root lies inside the data directory the platform reports:
/// its path starts with that directory's path and goes below it.
pub proof fn lemma_cef_root_inside_data_dir(dir: Seq<u8>)
    ensures
        spec_cef_root(Some(dir)).len() > dir.len(),
        spec_cef_root(Some(dir)).subrange(0, dir.len() as int) == dir,
{
    reveal_strlit("ferdirust");
    reveal_strlit("cef_cache");
    lemma_relative_name("ferdirust"@);
    lemma_relative_name("cef_cache"@);
    let app = spec_path_join_bytes(dir, encode_utf8("ferdirust"@));
    lemma_join_bytes_below(dir, encode_utf8("ferdirust"@));
    lemma_join_bytes_below(app, encode_utf8("cef_cache"@));
    assert(spec_cef_root(Some(dir)).subrange(0, dir.len() as int) =~= app.subrange(
        0,
        dir.len() as int,
    ));
}

/// Every service's partition lies inside the cache root: its path starts
/// with the root's path and goes below it.
pub proof fn lemma_partition_inside_root(root: Seq<u8>, id: Seq<char>)
    ensures
        spec_partition_dir(root, id).len() > root.len(),
        spec_partition_dir(root, id).subrange(0, root.len() as int) == root,
{
    reveal_strlit("svc-");
    lemma_relative_name("svc-"@ + id);
    lemma_join_bytes_below(root, encode_utf8("svc-"@ + id));
}

/// Each service has a partition of its own: under one root, services with
/// different ids never share a partition.
pub proof fn lemma_partitions_distinct(root: Seq<u8>, a: Seq<char>, b: Seq<char>)
    requires
        a != b,
    ensures
        spec_partition_dir(root, a) != spec_partition_dir(root, b),
{
    broadcast use vstd::utf8::encode_utf8_decode_utf8;

    reveal_strlit("svc-");
    let na = "svc-"@ + a;
    let nb = "svc-"@ + b;
    lemma_relative_name(na);
    lemma_relative_name(nb);
    let ca = encode_utf8(na);
    let cb = encode_utf8(nb);
    let pa = spec_partition_dir(root, a);
    let pb = spec_partition_dir(root, b);
    if pa == pb {
        let lead = pa.len() - ca.len();
        assert(lead == pb.len() - cb.len());
        assert(ca =~= pa.subrange(lead, pa.len() as int));
        assert(cb =~= pb.subrange(lead, pb.len() as int));
        assert(ca == cb);
        assert(vstd::utf8::decode_utf8(ca) == na);
        assert(vstd::utf8::decode_utf8(cb) == nb);
        assert(a =~= na.subrange(4, na.len() as int));
        assert(b =~= nb.subrange(4, nb.len() as int));
    }
}

/// The cache root, given the platform's data directory.
pub fn cef_root_dir_in(base: Option<Vec<u8>>) -> (r: Vec<u8>)
    ensures
        r@ == spec_cef_root(
            match base {
                Some(b) => Some(b@),
                None => None,
            },
        ),
{
    let app_dir = match base {
        Some(b) => path_join_bytes(b.as_slice(), "ferdirust".as_bytes()),
        None => path_join_bytes("~/.local/share".as_bytes(), "ferdirust".as_bytes()),
    };
    path_join_bytes(app_dir.as_slice(), "cef_cache".as_bytes())
}

/// The root of all browser profile data for this user, as path bytes.
pub fn cef_root_dir() -> (r: Vec<u8>)
    ensures
        exists|base: Option<Seq<u8>>| r@ == spec_cef_root(base),
{
    cef_root_dir_in(user_data_dir())
}

/// The partition of `service_id` under `root`. The `svc-` prefix keeps it
/// clear of the browser's own directories such as `Default`.
pub fn partition_dir_in(root: &[u8], service_id: &str) -> (r: Vec<u8>)
    ensures
        r@ == spec_partition_dir(root@, service_id@),
{
    let mut name = String::from_str("svc-");
    push_str(&mut name, service_id);
    path_join_bytes(root, name.as_str().as_bytes())
}

/// The storage partition of `service_id`, a child of the cache root.
pub fn partition_dir(service_id: &str) -> (r: Vec<u8>)
    ensures
        exists|base: Option<Seq<u8>>|
            r@ == spec_partition_dir(spec_cef_root(base), service_id@),
{
    let root = cef_root_dir();
    partition_dir_in(root.as_slice(), service_id)
}

/// The cache root as resolved once for this user, so that everything that
/// asks it for a partition gets the partition under one and the same root.
pub struct CacheRoot {
    bytes: Vec<u8>,
}

impl View for CacheRoot {
    type V = Seq<u8>;

    closed spec fn view(&self) -> Seq<u8> {
        self.bytes@
    }
}

impl CacheRoot {
    /// It is the cache root for some data directory the platform reported.
    #[verifier::type_invariant]
    pub open spec fn is_resolved(self) -> bool {
        exists|base: Option<Seq<u8>>| self@ == spec_cef_root(base)
    }

    /// Resolves the cache root for this user, as `cef_root_dir` does.
    pub fn resolve() -> (r: CacheRoot)
        ensures
            exists|base: Option<Seq<u8>>| r@ == spec_cef_root(base),
    {
        CacheRoot { bytes: cef_root_dir() }
    }

    /// The partition of `service_id` under this root.
    pub fn partition_of(&self, service_id: &str) -> (r: Vec<u8>)
        ensures
            r@ == spec_partition_dir(self@, service_id@),
            exists|base: Option<Seq<u8>>|
                r@ == spec_partition_dir(spec_cef_root(base), service_id@),
    {
        proof {
            use_type_invariant(self);
        }
        partition_dir_in(self.bytes.as_slice(), service_id)
    }
}

/// The wipe marker inside partition `dir`.
pub fn wipe_marker_path(dir: &[u8]) -> (r: Vec<u8>)
    ensures
        r@ == spec_path_join_bytes(dir@, encode_utf8(WIPE_MARKER@)),
{
    path_join_bytes(dir, WIPE_MARKER.as_bytes())
}

/// The shared profile under `root`.
pub fn shared_profile_dir(root: &[u8]) -> (r: Vec<u8>)
    ensures
        r@ == spec_path_join_bytes(root@, encode_utf8(SHARED_PROFILE@)),
{
    path_join_bytes(root, SHARED_PROFILE.as_bytes())
}

/// The cookie files copied from the shared profile into a new partition.
pub fn cookie_files() -> (r: Vec<&'static str>)
    ensures
        r@.map_values(|s: &str| s@) == seq![
            "Cookies"@,
            "Cookies-journal"@,
            "Network/Cookies"@,
            "Network/Cookies-journal"@,
        ],
{
    let mut r: Vec<&'static str> = Vec::new();
    r.push("Cookies");
    r.push("Cookies-journal");
    r.push("Network/Cookies");
    r.push("Network/Cookies-journal");
    assert(r@.map_values(|s: &str| s@) =~= seq![
        "Cookies"@,
        "Cookies-journal"@,
        "Network/Cookies"@,
        "Network/Cookies-journal"@,
    ]);
    r
}

/// Whether an IndexedDB entry of the shared profile belongs to `svc`: its
/// name mentions one of the service's allowed origins.
pub fn indexed_db_entry_belongs(svc: &ServiceConfig, entry_name: &str) -> (r: bool)
    ensures
        r == mentions_any(entry_name@, views_of(svc.allowed_origins@)),
{
    mentions_any_origin(entry_name, &svc.allowed_origins)
}

} // verus!
