use vstd::prelude::*;
use vstd::string::StringExecFns;

use crate::digest::{hex_of, sha512, sha512_of, hex_encode, lemma_hex_of_len};
use crate::inifile::{ini_get, ini_get_spec};
use crate::manifest::{is_partial_manifest, manifest_is_partial};
use crate::textfmt::{dec_chars, escape, push_dec, push_escaped};

verus! {

/// Kind of an update record; the catalog currently publishes minor updates only.
#[derive(Clone, Copy, PartialEq, Eq, Structural, Debug)]
pub enum UpdateType {
    Minor,
}

/// Kind of a patch: a complete archive, or a partial (differential) one.
#[derive(Clone, Copy, PartialEq, Eq, Structural, Debug)]
pub enum PatchType {
    Complete,
    Partial,
}

/// Hash family used for the content digest; only SHA-512 is supported.
#[derive(Clone, Copy, PartialEq, Eq, Structural, Debug)]
pub enum HashFunction {
    Sha512,
}

/// One downloadable payload of an update: where to fetch it, how to check it,
/// and how it applies.
#[derive(Clone)]
pub struct Patch {
    pub patch_type: PatchType,
    pub url: String,
    pub hash_function: HashFunction,
    pub hash_value: String,
    pub size: u64,
}

/// One update record: version metadata and its patches.
#[derive(Clone)]
pub struct Update {
    pub update_type: UpdateType,
    pub display_version: String,
    pub app_version: String,
    pub platform_version: String,
    pub build_id: String,
    pub patches: Vec<Patch>,
}

/// The catalog served to update clients: all published update records.
#[derive(Clone)]
pub struct Updates {
    pub updates: Vec<Update>,
}

/// The contents of an optional byte member, as a sequence.
pub open spec fn opt_bytes(m: Option<&Vec<u8>>) -> Option<Seq<u8>> {
    match m {
        Some(v) => Some(v@),
        None => None,
    }
}

/// The contents of an optional text member, as a sequence.
pub open spec fn opt_text(s: Option<&str>) -> Option<Seq<char>> {
    match s {
        Some(v) => Some(v@),
        None => None,
    }
}

/// The patch kind derived from the optional manifest member: partial exactly
/// when the member is present and its first line declares a partial patch,
/// complete otherwise (fail-open).
pub open spec fn spec_patch_kind(manifest: Option<Seq<u8>>) -> PatchType {
    match manifest {
        Some(m) => if manifest_is_partial(m) {
            PatchType::Partial
        } else {
            PatchType::Complete
        },
        None => PatchType::Complete,
    }
}

/// The version taken from the optional descriptor member: key `Version` of
/// section `App`, or the fixed placeholder when the member or the key is
/// absent.
pub open spec fn spec_version(app_ini: Option<Seq<char>>) -> Seq<char> {
    match app_ini {
        Some(ini) => match ini_get_spec(ini, "App"@, "Version"@) {
            Some(v) => v,
            None => "2000.0a1"@,
        },
        None => "2000.0a1"@,
    }
}

/// The build identifier taken from the optional descriptor member: key
/// `BuildID` of section `App`, or the fixed placeholder.
pub open spec fn spec_build_id(app_ini: Option<Seq<char>>) -> Seq<char> {
    match app_ini {
        Some(ini) => match ini_get_spec(ini, "App"@, "BuildID"@) {
            Some(v) => v,
            None => "21181002100236"@,
        },
        None => "21181002100236"@,
    }
}

impl Patch {
    /// A patch descriptor for an archive file with the given contents: a
    /// complete patch served at the fixed download location, carrying the
    /// SHA-512 digest of the bytes as lowercase hex and their exact count.
    pub fn from_file(archive: &Vec<u8>) -> (p: Patch)
        ensures
            p.patch_type == PatchType::Complete,
            p.url@ == "http://localhost:8000/update.mar"@,
            p.hash_function == HashFunction::Sha512,
            p.hash_value@ == hex_of(sha512_of(archive@)),
            p.hash_value@.len() == 128,
            p.size == archive@.len(),
    {
        let digest = sha512(archive.as_slice());
        let hash_value = hex_encode(&digest);
        proof {
            lemma_hex_of_len(sha512_of(archive@));
        }
        Patch {
            patch_type: PatchType::Complete,
            url: "http://localhost:8000/update.mar".to_owned(),
            hash_function: HashFunction::Sha512,
            hash_value,
            size: archive.len() as u64,
        }
    }
}

impl Update {
    /// One update record for an archive with the given contents and optional
    /// embedded members: the manifest member decides the patch kind, the
    /// descriptor member supplies version and build identifier, and missing
    /// or unusable members leave the fixed defaults in place.
    pub fn from_mar(archive: &Vec<u8>, manifest: Option<&Vec<u8>>, app_ini: Option<&str>) -> (u:
        Update)
        ensures
            u.update_type == UpdateType::Minor,
            u.display_version@ == spec_version(opt_text(app_ini)),
            u.app_version@ == spec_version(opt_text(app_ini)),
            u.platform_version@ == spec_version(opt_text(app_ini)),
            u.build_id@ == spec_build_id(opt_text(app_ini)),
            u.patches@.len() == 1,
            u.patches@[0].patch_type == spec_patch_kind(opt_bytes(manifest)),
            u.patches@[0].url@ == "http://localhost:8000/update.mar"@,
            u.patches@[0].hash_function == HashFunction::Sha512,
            u.patches@[0].hash_value@ == hex_of(sha512_of(archive@)),
            u.patches@[0].size == archive@.len(),
    {
        let mut patch = Patch::from_file(archive);
        match manifest {
            Some(m) => {
                if is_partial_manifest(m) {
                    patch.patch_type = PatchType::Partial;
                }
            },
            None => {},
        }
        let version: String;
        let build_id: String;
        match app_ini {
            Some(ini) => {
                version = match ini_get(ini, "App", "Version") {
                    Some(v) => v,
                    None => "2000.0a1".to_owned(),
                };
                build_id = match ini_get(ini, "App", "BuildID") {
                    Some(v) => v,
                    None => "21181002100236".to_owned(),
                };
            },
            None => {
                version = "2000.0a1".to_owned();
                build_id = "21181002100236".to_owned();
            },
        }
        let mut patches: Vec<Patch> = Vec::new();
        patches.push(patch);
        Update {
            update_type: UpdateType::Minor,
            display_version: version.clone(),
            app_version: version.clone(),
            platform_version: version,
            build_id,
            patches,
        }
    }
}

/// The serialized form of a patch kind, in lowercase.
pub open spec fn spec_patch_type_name(t: PatchType) -> Seq<char> {
    match t {
        PatchType::Complete => "complete"@,
        PatchType::Partial => "partial"@,
    }
}

/// The serialized form of an update kind, in lowercase.
pub open spec fn spec_update_type_name(t: UpdateType) -> Seq<char> {
    match t {
        UpdateType::Minor => "minor"@,
    }
}

/// The serialized form of a hash family, in lowercase.
pub open spec fn spec_hash_fn_name(h: HashFunction) -> Seq<char> {
    match h {
        HashFunction::Sha512 => "sha512"@,
    }
}

/// The serialized `patch` element: every scalar field an attribute, string
/// values attribute-encoded, the size in decimal.
pub open spec fn spec_serialize_patch(p: Patch) -> Seq<char> {
    "    <patch type=\""@ + spec_patch_type_name(p.patch_type) + "\" URL=\""@ + escape(p.url@)
        + "\" hashFunction=\""@ + spec_hash_fn_name(p.hash_function) + "\" hashValue=\""@ + escape(
        p.hash_value@,
    ) + "\" size=\""@ + dec_chars(p.size as nat) + "\"/>\n"@
}

/// The serialized `patch` elements of one update, in order.
pub open spec fn spec_serialize_patches(s: Seq<Patch>) -> Seq<char>
    decreases s.len(),
{
    if s.len() == 0 {
        Seq::empty()
    } else {
        spec_serialize_patches(s.drop_last()) + spec_serialize_patch(s.last())
    }
}

/// The serialized `update` element: scalar fields as attributes, then the
/// nested `patch` elements.
pub open spec fn spec_serialize_update(u: Update) -> Seq<char> {
    "  <update type=\""@ + spec_update_type_name(u.update_type) + "\" displayVersion=\""@ + escape(
        u.display_version@,
    ) + "\" appVersion=\""@ + escape(u.app_version@) + "\" platformVersion=\""@ + escape(
        u.platform_version@,
    ) + "\" buildID=\""@ + escape(u.build_id@) + "\">\n"@ + spec_serialize_patches(u.patches@)
        + "  </update>\n"@
}

/// The serialized `update` elements of the catalog, in order.
pub open spec fn spec_serialize_updates(s: Seq<Update>) -> Seq<char>
    decreases s.len(),
{
    if s.len() == 0 {
        Seq::empty()
    } else {
        spec_serialize_updates(s.drop_last()) + spec_serialize_update(s.last())
    }
}

/// The serialized catalog: one `updates` root around the update elements.
pub open spec fn spec_serialize(c: Updates) -> Seq<char> {
    "<updates>\n"@ + spec_serialize_updates(c.updates@) + "</updates>"@
}

/// Appends the serialized form of one patch.
fn push_patch(out: &mut String, p: &Patch)
    ensures
        final(out)@ == old(out)@ + spec_serialize_patch(*p),
{
    out.append("    <patch type=\"");
    match p.patch_type {
        PatchType::Complete => out.append("complete"),
        PatchType::Partial => out.append("partial"),
    }
    out.append("\" URL=\"");
    push_escaped(out, p.url.as_str());
    out.append("\" hashFunction=\"");
    match p.hash_function {
        HashFunction::Sha512 => out.append("sha512"),
    }
    out.append("\" hashValue=\"");
    push_escaped(out, p.hash_value.as_str());
    out.append("\" size=\"");
    push_dec(out, p.size);
    out.append("\"/>\n");
    proof {
        assert(out@ =~= old(out)@ + spec_serialize_patch(*p));
    }
}

/// Appends the serialized form of one update record.
fn push_update(out: &mut String, u: &Update)
    ensures
        final(out)@ == old(out)@ + spec_serialize_update(*u),
{
    out.append("  <update type=\"");
    match u.update_type {
        UpdateType::Minor => out.append("minor"),
    }
    out.append("\" displayVersion=\"");
    push_escaped(out, u.display_version.as_str());
    out.append("\" appVersion=\"");
    push_escaped(out, u.app_version.as_str());
    out.append("\" platformVersion=\"");
    push_escaped(out, u.platform_version.as_str());
    out.append("\" buildID=\"");
    push_escaped(out, u.build_id.as_str());
    out.append("\">\n");
    let ghost head = out@;
    let mut i: usize = 0;
    while i < u.patches.len()
        invariant
            i <= u.patches@.len(),
            out@ == head + spec_serialize_patches(u.patches@.take(i as int)),
        decreases u.patches@.len() - i,
    {
        push_patch(out, &u.patches[i]);
        proof {
            assert(u.patches@.take(i + 1).drop_last() =~= u.patches@.take(i as int));
            assert(u.patches@.take(i + 1).last() == u.patches@[i as int]);
            assert(out@ =~= head + spec_serialize_patches(u.patches@.take(i + 1)));
        }
        i = i + 1;
    }
    out.append("  </update>\n");
    proof {
        assert(u.patches@.take(u.patches@.len() as int) =~= u.patches@);
        assert(out@ =~= old(out)@ + spec_serialize_update(*u));
    }
}

impl Updates {
    /// The catalog for an archive with the given contents and optional
    /// embedded members: exactly one update record, built as
    /// `Update::from_mar` describes.
    pub fn from_mar(archive: &Vec<u8>, manifest: Option<&Vec<u8>>, app_ini: Option<&str>) -> (c:
        Updates)
        ensures
            c.updates@.len() == 1,
            c.updates@[0].update_type == UpdateType::Minor,
            c.updates@[0].display_version@ == spec_version(opt_text(app_ini)),
            c.updates@[0].app_version@ == spec_version(opt_text(app_ini)),
            c.updates@[0].platform_version@ == spec_version(opt_text(app_ini)),
            c.updates@[0].build_id@ == spec_build_id(opt_text(app_ini)),
            c.updates@[0].patches@.len() == 1,
            c.updates@[0].patches@[0].patch_type == spec_patch_kind(opt_bytes(manifest)),
            c.updates@[0].patches@[0].url@ == "http://localhost:8000/update.mar"@,
            c.updates@[0].patches@[0].hash_function == HashFunction::Sha512,
            c.updates@[0].patches@[0].hash_value@ == hex_of(sha512_of(archive@)),
            c.updates@[0].patches@[0].size == archive@.len(),
    {
        let update = Update::from_mar(archive, manifest, app_ini);
        let mut updates: Vec<Update> = Vec::new();
        updates.push(update);
        Updates { updates }
    }

    /// Renders the catalog into the markup document: attribute-encoded
    /// elements, lowercase enum values, no schema-location declaration.
    pub fn serialize(&self) -> (r: String)
        ensures
            r@ == spec_serialize(*self),
    {
        let mut out = String::new();
        out.append("<updates>\n");
        let mut i: usize = 0;
        while i < self.updates.len()
            invariant
                i <= self.updates@.len(),
                out@ == "<updates>\n"@ + spec_serialize_updates(self.updates@.take(i as int)),
            decreases self.updates@.len() - i,
        {
            push_update(&mut out, &self.updates[i]);
            proof {
                assert(self.updates@.take(i + 1).drop_last() =~= self.updates@.take(i as int));
                assert(self.updates@.take(i + 1).last() == self.updates@[i as int]);
                assert(out@ =~= "<updates>\n"@ + spec_serialize_updates(self.updates@.take(i + 1)));
            }
            i = i + 1;
        }
        out.append("</updates>");
        proof {
            assert(self.updates@.take(self.updates@.len() as int) =~= self.updates@);
            assert(out@ =~= spec_serialize(*self));
        }
        out
    }
}

/// Serialization is deterministic: any two renderings of the same in-memory
/// catalog are identical, character for character.
pub proof fn lemma_serialize_idempotent(c: Updates, r1: Seq<char>, r2: Seq<char>)
    requires
        r1 == spec_serialize(c),
        r2 == spec_serialize(c),
    ensures
        r1 == r2,
{
}

} // verus!
