//! The local language models and where they come from.
use vstd::prelude::*;

verus! {

/// The local language models the app knows how to fetch and run.
#[derive(Debug, Clone, Copy, PartialEq, Eq, Structural, Hash)]
pub enum SupportedModel {
    Llama3p2_3bQ4,
    HyprLLM,
    Gemma3_4bQ4,
}

/// The models offered, in the order they are listed.
pub open spec fn spec_supported_models() -> Seq<SupportedModel> {
    seq![SupportedModel::Llama3p2_3bQ4, SupportedModel::HyprLLM, SupportedModel::Gemma3_4bQ4]
}

pub fn supported_models() -> (r: Vec<SupportedModel>)
    ensures
        r@ == spec_supported_models(),
{
    let mut v: Vec<SupportedModel> = Vec::new();
    v.push(SupportedModel::Llama3p2_3bQ4);
    v.push(SupportedModel::HyprLLM);
    v.push(SupportedModel::Gemma3_4bQ4);
    assert(v@ =~= spec_supported_models());
    v
}

/// Name of the model's file in the models directory.
pub open spec fn spec_file_name(m: SupportedModel) -> Seq<char> {
    match m {
        SupportedModel::Llama3p2_3bQ4 => "llm.gguf"@,
        SupportedModel::HyprLLM => "hypr-llm.gguf"@,
        SupportedModel::Gemma3_4bQ4 => "gemma-3-4b-it-Q4_K_M.gguf"@,
    }
}

/// Where the model is downloaded from.
pub open spec fn spec_model_url(m: SupportedModel) -> Seq<char> {
    match m {
        SupportedModel::Llama3p2_3bQ4 => "https://storage2.hyprnote.com/v0/lmstudio-community/Llama-3.2-3B-Instruct-GGUF/main/Llama-3.2-3B-Instruct-Q4_K_M.gguf"@,
        SupportedModel::HyprLLM => "https://storage2.hyprnote.com/v0/yujonglee/hypr-llm-sm/model_q4_k_m.gguf"@,
        SupportedModel::Gemma3_4bQ4 => "https://storage2.hyprnote.com/v0/unsloth/gemma-3-4b-it-GGUF/gemma-3-4b-it-Q4_K_M.gguf"@,
    }
}

/// Size in bytes of the model file.
pub open spec fn spec_model_size(m: SupportedModel) -> u64 {
    match m {
        SupportedModel::Llama3p2_3bQ4 => 2019377440,
        SupportedModel::HyprLLM => 1107409056,
        SupportedModel::Gemma3_4bQ4 => 2489894016,
    }
}

/// Checksum of the model file.
pub open spec fn spec_model_checksum(m: SupportedModel) -> u64 {
    match m {
        SupportedModel::Llama3p2_3bQ4 => 2831308098,
        SupportedModel::HyprLLM => 4037351144,
        SupportedModel::Gemma3_4bQ4 => 2760830291,
    }
}

impl SupportedModel {
    pub fn file_name(&self) -> (r: &'static str)
        ensures
            r@ == spec_file_name(*self),
    {
        match self {
            SupportedModel::Llama3p2_3bQ4 => "llm.gguf",
            SupportedModel::HyprLLM => "hypr-llm.gguf",
            SupportedModel::Gemma3_4bQ4 => "gemma-3-4b-it-Q4_K_M.gguf",
        }
    }

    pub fn model_url(&self) -> (r: &'static str)
        ensures
            r@ == spec_model_url(*self),
    {
        match self {
            SupportedModel::Llama3p2_3bQ4 => "https://storage2.hyprnote.com/v0/lmstudio-community/Llama-3.2-3B-Instruct-GGUF/main/Llama-3.2-3B-Instruct-Q4_K_M.gguf",
            SupportedModel::HyprLLM => "https://storage2.hyprnote.com/v0/yujonglee/hypr-llm-sm/model_q4_k_m.gguf",
            SupportedModel::Gemma3_4bQ4 => "https://storage2.hyprnote.com/v0/unsloth/gemma-3-4b-it-GGUF/gemma-3-4b-it-Q4_K_M.gguf",
        }
    }

    pub fn model_size(&self) -> (r: u64)
        ensures
            r == spec_model_size(*self),
    {
        match self {
            SupportedModel::Llama3p2_3bQ4 => 2019377440,
            SupportedModel::HyprLLM => 1107409056,
            SupportedModel::Gemma3_4bQ4 => 2489894016,
        }
    }

    pub fn model_checksum(&self) -> (r: u64)
        ensures
            r == spec_model_checksum(*self),
    {
        match self {
            SupportedModel::Llama3p2_3bQ4 => 2831308098,
            SupportedModel::HyprLLM => 4037351144,
            SupportedModel::Gemma3_4bQ4 => 2760830291,
        }
    }
}

/// What the model list shows of a model.
pub struct ModelInfo {
    pub key: SupportedModel,
    pub name: String,
    pub description: String,
    pub size_bytes: u64,
}

/// Which model a request names.
#[derive(Debug, Clone, Copy, PartialEq, Eq, Structural)]
pub enum ModelIdentifier {
    Local,
    MockOnboarding,
}

/// Each model has its own file, download location, size and checksum: no two
/// models share any of them.
pub proof fn law_models_have_own_files(a: SupportedModel, b: SupportedModel)
    requires
        a != b,
    ensures
        spec_file_name(a) != spec_file_name(b),
        spec_model_url(a) != spec_model_url(b),
        spec_model_size(a) != spec_model_size(b),
        spec_model_checksum(a) != spec_model_checksum(b),
{
    reveal_strlit("llm.gguf");
    reveal_strlit("hypr-llm.gguf");
    reveal_strlit("gemma-3-4b-it-Q4_K_M.gguf");
    reveal_strlit("https://storage2.hyprnote.com/v0/lmstudio-community/Llama-3.2-3B-Instruct-GGUF/main/Llama-3.2-3B-Instruct-Q4_K_M.gguf");
    reveal_strlit("https://storage2.hyprnote.com/v0/yujonglee/hypr-llm-sm/model_q4_k_m.gguf");
    reveal_strlit("https://storage2.hyprnote.com/v0/unsloth/gemma-3-4b-it-GGUF/gemma-3-4b-it-Q4_K_M.gguf");
    // the names differ in their first character, the locations after "/v0/"
    assert(spec_file_name(a)[0] != spec_file_name(b)[0]);
    assert(spec_model_url(a)[33] != spec_model_url(b)[33]);
}

/// The Gemma model is fetched from its own file: its download location ends
/// with its file name.
pub proof fn law_gemma_url_names_its_file()
    ensures
        ({
            let url = spec_model_url(SupportedModel::Gemma3_4bQ4);
            let name = spec_file_name(SupportedModel::Gemma3_4bQ4);
            url.len() >= name.len() && url.subrange(url.len() - name.len(), url.len() as int) == name
        }),
{
    reveal_strlit("gemma-3-4b-it-Q4_K_M.gguf");
    reveal_strlit("https://storage2.hyprnote.com/v0/unsloth/gemma-3-4b-it-GGUF/gemma-3-4b-it-Q4_K_M.gguf");
    let url = spec_model_url(SupportedModel::Gemma3_4bQ4);
    let name = spec_file_name(SupportedModel::Gemma3_4bQ4);
    assert(url.subrange(url.len() - name.len(), url.len() as int) =~= name);
}

/// Every supported model is listed exactly once.
pub proof fn law_each_model_listed_once(m: SupportedModel)
    ensures
        spec_supported_models().contains(m),
        forall|i: int, j: int|
            0 <= i < j < spec_supported_models().len() ==> spec_supported_models()[i]
                != spec_supported_models()[j],
{
    match m {
        SupportedModel::Llama3p2_3bQ4 => assert(spec_supported_models()[0] == m),
        SupportedModel::HyprLLM => assert(spec_supported_models()[1] == m),
        SupportedModel::Gemma3_4bQ4 => assert(spec_supported_models()[2] == m),
    }
}

} // verus!
