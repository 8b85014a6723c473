//! Client configuration, module registries and api version data.

use vstd::prelude::*;
use crate::errors::ClientError;
use crate::ids::{FederationId, ModuleInstanceId};

verus! {

/// One api version: the major component is what is supported, the minor
/// component what is required for that major version.
#[derive(Clone, Copy, PartialEq, Eq, Structural, Debug)]
pub struct ApiVersion {
    pub major: u32,
    pub minor: u32,
}

/// A set of api versions with pairwise distinct majors.
pub struct MultiApiVersion {
    pub versions: Vec<ApiVersion>,
}

/// Whether two versions of the list share a major component.
pub open spec fn distinct_majors(s: Seq<ApiVersion>) -> bool {
    forall|i: int, j: int| 0 <= i < j < s.len() ==> s[i].major != s[j].major
}

impl MultiApiVersion {
    /// Collects versions, refusing two entries with the same major.
    pub fn try_from_iter(versions: Vec<ApiVersion>) -> (r: Result<MultiApiVersion, ClientError>)
        ensures
            r is Ok <==> distinct_majors(versions@),
            r matches Ok(m) ==> m.versions@ == versions@,
            r is Err ==> r == Err::<MultiApiVersion, ClientError>(
                ClientError::ConflictingApiVersions,
            ),
    {
        let mut i: usize = 0;
        while i < versions.len()
            invariant
                0 <= i <= versions@.len(),
                forall|a: int, b: int| 0 <= a < b < i ==> versions@[a].major != versions@[b].major,
            decreases versions@.len() - i,
        {
            let mut j: usize = 0;
            while j < i
                invariant
                    0 <= j <= i < versions@.len(),
                    forall|a: int| 0 <= a < j ==> versions@[a].major != versions@[i as int].major,
                decreases i - j,
            {
                if versions[j].major == versions[i].major {
                    return Err(ClientError::ConflictingApiVersions);
                }
                j = j + 1;
            }
            i = i + 1;
        }
        Ok(MultiApiVersion { versions })
    }
}

/// One configured module instance.
pub struct ModuleConfigEntry {
    pub id: ModuleInstanceId,
    /// Kind of the module, e.g. the name of a mint or wallet module.
    pub kind: String,
    /// Consensus version of the module.
    pub version: u32,
}

/// Mathematical value of a [`ModuleConfigEntry`].
#[verifier::ext_equal]
pub ghost struct ModuleConfigEntryV {
    pub id: ModuleInstanceId,
    pub kind: Seq<char>,
    pub version: u32,
}

impl View for ModuleConfigEntry {
    type V = ModuleConfigEntryV;

    open spec fn view(&self) -> ModuleConfigEntryV {
        ModuleConfigEntryV { id: self.id, kind: self.kind@, version: self.version }
    }
}

/// One federation metadata pair.
pub struct MetaEntry {
    pub key: String,
    pub value: String,
}

/// Configuration the client is built with.
pub struct ClientConfig {
    pub federation_id: FederationId,
    /// Core consensus version of the federation.
    pub consensus_version: u32,
    /// Configured module instances.
    pub modules: Vec<ModuleConfigEntry>,
    /// Federation metadata.
    pub meta: Vec<MetaEntry>,
}

impl ClientConfig {
    /// Values of the configured module instances.
    pub open spec fn modules_v(&self) -> Seq<ModuleConfigEntryV> {
        self.modules@.map_values(|e: ModuleConfigEntry| e@)
    }

    /// Well-formedness: one entry per module instance id.
    pub open spec fn wf(&self) -> bool {
        forall|i: int, j: int|
            0 <= i < j < self.modules_v().len() ==> (#[trigger] self.modules_v()[i]).id != (
            #[trigger] self.modules_v()[j]).id
    }

    /// Whether some module instance carries this id.
    pub open spec fn has_instance(&self, id: ModuleInstanceId) -> bool {
        exists|i: int|
            0 <= i < self.modules_v().len() && (#[trigger] self.modules_v()[i]).id == id
    }

    /// Looks a module config up by instance id.
    pub fn get_module_config(&self, id: ModuleInstanceId) -> (r: Option<&ModuleConfigEntry>)
        ensures
            r is Some <==> self.has_instance(id),
            r matches Some(e) ==> self.modules_v().contains(e@) && e@.id == id,
    {
        let mut i: usize = 0;
        while i < self.modules.len()
            invariant
                0 <= i <= self.modules@.len(),
                forall|j: int| 0 <= j < i ==> (#[trigger] self.modules_v()[j]).id != id,
            decreases self.modules@.len() - i,
        {
            if self.modules[i].id == id {
                proof {
                    assert(self.modules_v()[i as int] == self.modules@[i as int]@);
                }
                return Some(&self.modules[i]);
            }
            i = i + 1;
        }
        None
    }

    /// Looks a metadata value up by key.
    pub fn get_meta_value(&self, key: &String) -> (r: Option<String>)
        ensures
            r is Some <==> (exists|i: int|
                0 <= i < self.meta@.len() && (#[trigger] self.meta@[i]).key@ == key@),
            r matches Some(v) ==> (exists|i: int|
                0 <= i < self.meta@.len() && (#[trigger] self.meta@[i]).key@ == key@ && self.meta@[
                    i
                ].value@ == v@),
    {
        let mut i: usize = 0;
        while i < self.meta.len()
            invariant
                0 <= i <= self.meta@.len(),
                forall|j: int| 0 <= j < i ==> (#[trigger] self.meta@[j]).key@ != key@,
            decreases self.meta@.len() - i,
        {
            if self.meta[i].key == *key {
                return Some(self.meta[i].value.clone());
            }
            i = i + 1;
        }
        None
    }
}

/// What a module generator declares about itself: the kind it can
/// instantiate and the api versions its client code supports.
pub struct ClientModuleGenEntry {
    pub kind: String,
    pub api_versions: Vec<ApiVersion>,
}

/// Registry of the module generators the client was compiled with.
pub struct ClientModuleGenRegistry {
    pub entries: Vec<ClientModuleGenEntry>,
}

/// Whether the registry can instantiate modules of this kind.
pub open spec fn registry_has_kind(reg: &ClientModuleGenRegistry, kind: Seq<char>) -> bool {
    exists|i: int| 0 <= i < reg.entries@.len() && (#[trigger] reg.entries@[i]).kind@ == kind
}

impl ClientModuleGenRegistry {
    /// An empty registry.
    pub fn new() -> (r: ClientModuleGenRegistry)
        ensures
            r.entries@.len() == 0,
    {
        ClientModuleGenRegistry { entries: Vec::new() }
    }

    /// Makes one more module generator available.
    pub fn attach(&mut self, gen_entry: ClientModuleGenEntry)
        ensures
            final(self).entries@ == old(self).entries@.push(gen_entry),
    {
        self.entries.push(gen_entry);
    }

    /// Whether the registry holds a generator for the kind.
    pub fn has_kind(&self, kind: &String) -> (r: bool)
        ensures
            r == registry_has_kind(self, kind@),
    {
        let mut i: usize = 0;
        while i < self.entries.len()
            invariant
                0 <= i <= self.entries@.len(),
                forall|j: int| 0 <= j < i ==> (#[trigger] self.entries@[j]).kind@ != kind@,
            decreases self.entries@.len() - i,
        {
            if self.entries[i].kind == *kind {
                return true;
            }
            i = i + 1;
        }
        false
    }

    /// Looks a generator up by kind.
    pub fn get(&self, kind: &String) -> (r: Option<&ClientModuleGenEntry>)
        ensures
            r is Some <==> registry_has_kind(self, kind@),
            r matches Some(e) ==> e.kind@ == kind@ && self.entries@.contains(*e),
    {
        let mut i: usize = 0;
        while i < self.entries.len()
            invariant
                0 <= i <= self.entries@.len(),
                forall|j: int| 0 <= j < i ==> (#[trigger] self.entries@[j]).kind@ != kind@,
            decreases self.entries@.len() - i,
        {
            if self.entries[i].kind == *kind {
                proof {
                    assert(self.entries@.contains(self.entries@[i as int]));
                }
                return Some(&self.entries[i]);
            }
            i = i + 1;
        }
        None
    }
}

/// One decoder registration: a module instance and the kind whose decoder
/// serves it.
pub struct DecoderEntry {
    pub id: ModuleInstanceId,
    pub kind: String,
}

/// Mathematical value of a [`DecoderEntry`].
#[verifier::ext_equal]
pub ghost struct DecoderEntryV {
    pub id: ModuleInstanceId,
    pub kind: Seq<char>,
}

impl View for DecoderEntry {
    type V = DecoderEntryV;

    open spec fn view(&self) -> DecoderEntryV {
        DecoderEntryV { id: self.id, kind: self.kind@ }
    }
}

/// Decoders available to the client, one per configured module instance of
/// a known kind.
pub struct ModuleDecoderRegistry {
    pub entries: Vec<DecoderEntry>,
}

impl ModuleDecoderRegistry {
    /// Values of the registered decoders.
    pub open spec fn entries_v(&self) -> Seq<DecoderEntryV> {
        self.entries@.map_values(|e: DecoderEntry| e@)
    }
}

/// The decoders a registry yields for a list of configured modules: one
/// entry per module whose kind the registry knows, in configuration order.
pub open spec fn decoders_spec(reg: &ClientModuleGenRegistry, modules: Seq<ModuleConfigEntryV>)
    -> Seq<DecoderEntryV>
    decreases modules.len(),
{
    if modules.len() == 0 {
        Seq::empty()
    } else if registry_has_kind(reg, modules.last().kind) {
        decoders_spec(reg, modules.drop_last()).push(
            DecoderEntryV { id: modules.last().id, kind: modules.last().kind },
        )
    } else {
        decoders_spec(reg, modules.drop_last())
    }
}

/// Builds the decoder registry for the configured modules. A module whose
/// kind no generator covers is skipped: that instance stays inactive for
/// this session.
pub fn client_decoders(reg: &ClientModuleGenRegistry, modules: &Vec<ModuleConfigEntry>) -> (r:
    ModuleDecoderRegistry)
    ensures
        r.entries_v() == decoders_spec(reg, modules@.map_values(|e: ModuleConfigEntry| e@)),
{
    let ghost mods = modules@.map_values(|e: ModuleConfigEntry| e@);
    let mut out: Vec<DecoderEntry> = Vec::new();
    let mut i: usize = 0;
    while i < modules.len()
        invariant
            mods == modules@.map_values(|e: ModuleConfigEntry| e@),
            0 <= i <= modules@.len(),
            out@.map_values(|e: DecoderEntry| e@) =~= decoders_spec(reg, mods.take(i as int)),
        decreases modules@.len() - i,
    {
        proof {
            assert(mods.take(i + 1).drop_last() =~= mods.take(i as int));
            assert(mods.take(i + 1).last() == mods[i as int]);
            assert(mods[i as int] == modules@[i as int]@);
        }
        if reg.has_kind(&modules[i].kind) {
            let ghost prev = out@;
            out.push(DecoderEntry { id: modules[i].id, kind: modules[i].kind.clone() });
            proof {
                let outv = out@.map_values(|e: DecoderEntry| e@);
                assert forall|k: int| 0 <= k < outv.len() implies #[trigger] outv[k]
                    == decoders_spec(reg, mods.take(i + 1))[k] by {
                    assert(outv[k] == out@[k]@);
                    if k < prev.len() {
                        assert(out@[k] == prev[k]);
                        assert(prev.map_values(|e: DecoderEntry| e@)[k] == prev[k]@);
                    } else {
                        assert(out@[k]@ =~= (DecoderEntryV {
                            id: mods[i as int].id,
                            kind: mods[i as int].kind,
                        }));
                    }
                }
                assert(outv =~= decoders_spec(reg, mods.take(i + 1)));
            }
        }
        i = i + 1;
    }
    proof {
        assert(mods.take(mods.len() as int) =~= mods);
    }
    ModuleDecoderRegistry { entries: out }
}

/// Core consensus and api versions the client itself supports.
pub struct SupportedCoreApiVersions {
    pub core_consensus: u32,
    pub api: MultiApiVersion,
}

/// Versions one module instance supports.
pub struct SupportedModuleApiVersions {
    pub core_consensus: u32,
    pub module_consensus: u32,
    pub api: Vec<ApiVersion>,
}

/// Versions of one module instance, keyed by its id.
pub struct ModuleApiVersionsEntry {
    pub id: ModuleInstanceId,
    pub versions: SupportedModuleApiVersions,
}

/// Everything the client and its modules support, as offered to the
/// federation when negotiating a common api version.
pub struct SupportedApiVersionsSummary {
    pub core: SupportedCoreApiVersions,
    pub modules: Vec<ModuleApiVersionsEntry>,
}

} // verus!
