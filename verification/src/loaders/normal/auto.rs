//! The choice of a text loader by the model class that a configuration names.

use vstd::prelude::*;

use crate::loaders::names::NormalLoaderType;
use crate::loaders::LoaderError;

verus! {

/// Loads a model based on the Hugging Face Transformers -CausalLM model class.
pub struct AutoNormalLoader;

/// The architecture whose loader serves an architecture: the mixture-of-experts
/// variant of LFM2 shares the loader of LFM2, every other has its own.
pub open spec fn served_by(t: NormalLoaderType) -> NormalLoaderType {
    if t == NormalLoaderType::Lfm2Moe {
        NormalLoaderType::Lfm2
    } else {
        t
    }
}

impl AutoNormalLoader {
    /// The loader for the one model class that `architectures` names.
    pub fn get_loader(architectures: &Vec<String>) -> (r: Result<NormalLoaderType, LoaderError>)
        ensures
            architectures@.len() != 1 ==> r == Err::<NormalLoaderType, LoaderError>(
                LoaderError::ArchitectureCount,
            ),
            architectures@.len() == 1 ==> match r {
                Ok(loader) => exists|t: NormalLoaderType| #[trigger]
                    t.causal_lm_text() == architectures@[0]@ && loader == served_by(t),
                Err(e) => {
                    &&& e matches LoaderError::UnsupportedClass(n)
                    &&& n@ == architectures@[0]@
                    &&& forall|t: NormalLoaderType| #[trigger]
                        t.causal_lm_text() != architectures@[0]@
                },
            },
    {
        if architectures.len() != 1 {
            return Err(LoaderError::ArchitectureCount);
        }
        match NormalLoaderType::from_causal_lm_name(architectures[0].as_str()) {
            Ok(t) => {
                assert(t.causal_lm_text() == architectures@[0]@);
                if t == NormalLoaderType::Lfm2Moe {
                    Ok(NormalLoaderType::Lfm2)
                } else {
                    Ok(t)
                }
            },
            Err(e) => Err(e),
        }
    }

    /// Elements of the largest activation outside the layers: a text model has
    /// none.
    pub fn non_mapped_max_act_size_elems(&self) -> (r: usize)
        ensures
            r == 0,
    {
        0
    }
}

/// A configuration that names the class of an architecture is served by that
/// architecture's loader and no other.
pub proof fn law_auto_loader_is_determined(a: NormalLoaderType, b: NormalLoaderType)
    requires
        a.causal_lm_text() == b.causal_lm_text(),
    ensures
        served_by(a) == served_by(b),
{
    crate::loaders::names::law_causal_lm_names_differ(a, b);
}

} // verus!
