use vstd::prelude::*;

use crate::compilation::Compilation;
use crate::dependency::Dependency;
use crate::kinds::{ModuleType, SourceType};
use crate::module::{Module, ModuleIdentity, ModuleRenderResult};

verus! {

/// A file that is shipped as it is: it imports nothing, and it renders to
/// the bytes it was read as.
pub struct AssetModule {
    bytes: Vec<u8>,
    kinds: Vec<SourceType>,
}

impl AssetModule {
    #[verifier::type_invariant]
    closed spec fn well_formed(&self) -> bool {
        self.kinds@ == seq![SourceType::Asset]
    }

    /// The bytes of the file.
    pub closed spec fn content(&self) -> Seq<u8> {
        self.bytes@
    }

    pub fn new(bytes: Vec<u8>) -> (module: Self)
        ensures
            module.content() == bytes@,
    {
        let mut kinds: Vec<SourceType> = Vec::new();
        kinds.push(SourceType::Asset);
        assert(kinds@ =~= seq![SourceType::Asset]);
        AssetModule { bytes, kinds }
    }
}

impl Module for AssetModule {
    open spec fn spec_module_type(&self) -> ModuleType {
        ModuleType::Asset
    }

    open spec fn spec_source_types(
        &self,
        module: &ModuleIdentity,
        dependencies: Seq<Dependency>,
        compilation: &Compilation,
    ) -> Seq<SourceType> {
        seq![SourceType::Asset]
    }

    fn module_type(&self) -> (kind: ModuleType) {
        ModuleType::Asset
    }

    fn source_types(
        &self,
        module: &ModuleIdentity,
        dependencies: &[Dependency],
        compilation: &Compilation,
    ) -> (kinds: &[SourceType]) {
        proof {
            use_type_invariant(self);
            assert(seq![SourceType::Asset].no_duplicates());
        }
        self.kinds.as_slice()
    }

    /// As an asset, the file renders to its own bytes; as anything else,
    /// to nothing. It never fails.
    fn render(
        &self,
        requested_source_type: SourceType,
        module: &ModuleIdentity,
        dependencies: &[Dependency],
        compilation: &Compilation,
    ) -> (rendered: Result<Option<ModuleRenderResult>, anyhow::Error>)
        ensures
            requested_source_type == SourceType::Asset ==> (rendered matches Ok(
                Some(ModuleRenderResult::Asset(bytes)),
            ) && bytes@ == self.content()),
            requested_source_type != SourceType::Asset ==> rendered matches Ok(None),
    {
        assert(seq![SourceType::Asset][0] == SourceType::Asset);
        match requested_source_type {
            SourceType::Asset => Ok(Some(ModuleRenderResult::Asset(self.bytes.clone()))),
            _ => Ok(None),
        }
    }
}

} // verus!
