//! Patterns of tensor names: which weights may be quantized on load.
//!
//! Most lists are made of families: a prefix, one of several modules, and a
//! suffix.

use vstd::prelude::*;

use crate::loaders::LoaderError;

verus! {

/// The suffix of the patterns that match a weight or its bias.
pub const WEIGHT_OR_BIAS: &'static str = r"\.(weight|bias)$";

/// The pattern of the output head.
pub const LM_HEAD: &'static str = r"lm_head\.(weight|bias)$";

/// The pattern of an output head at the root of the checkpoint.
pub const ROOT_LM_HEAD: &'static str = r"^lm_head\.(weight|bias)$";

/// The prefix of the modules of any layer.
pub const ANY_LAYER: &'static str = r"layers\.(\d+)\.";

/// The characters of each text.
pub open spec fn texts(v: Seq<String>) -> Seq<Seq<char>> {
    Seq::new(v.len(), |i: int| v[i]@)
}

/// The characters of each literal.
pub open spec fn literals(v: Seq<&'static str>) -> Seq<Seq<char>> {
    Seq::new(v.len(), |i: int| v[i]@)
}

/// The patterns of a family.
pub open spec fn family(prefix: Seq<char>, modules: Seq<Seq<char>>, suffix: Seq<char>) -> Seq<
    Seq<char>,
> {
    Seq::new(modules.len(), |i: int| prefix + modules[i] + suffix)
}

/// Adds one pattern.
pub fn push_pattern(out: &mut Vec<String>, pattern: &str)
    ensures
        texts(final(out)@) == texts(old(out)@).push(pattern@),
{
    out.push(pattern.to_owned());
    assert(texts(out@) =~= texts(old(out)@).push(pattern@));
}

/// Adds the patterns of a list.
pub fn push_patterns(out: &mut Vec<String>, patterns: &Vec<&'static str>)
    ensures
        texts(final(out)@) == texts(old(out)@) + literals(patterns@),
{
    let n: usize = patterns.len();
    let mut i: usize = 0;
    assert(texts(out@) =~= texts(old(out)@) + literals(patterns@).take(0));
    while i < n
        invariant
            i <= n == patterns@.len(),
            texts(out@) == texts(old(out)@) + literals(patterns@).take(i as int),
        decreases n - i,
    {
        push_pattern(out, patterns[i]);
        i += 1;
        assert(texts(out@) =~= texts(old(out)@) + literals(patterns@).take(i as int));
    }
    assert(literals(patterns@).take(n as int) =~= literals(patterns@));
}

/// Adds the patterns of a family.
pub fn push_family(out: &mut Vec<String>, prefix: &str, modules: &Vec<&'static str>, suffix: &str)
    ensures
        texts(final(out)@) == texts(old(out)@) + family(prefix@, literals(modules@), suffix@),
{
    let n: usize = modules.len();
    let mut i: usize = 0;
    let ghost all = family(prefix@, literals(modules@), suffix@);
    assert(texts(out@) =~= texts(old(out)@) + all.take(0));
    while i < n
        invariant
            i <= n == modules@.len(),
            all == family(prefix@, literals(modules@), suffix@),
            texts(out@) == texts(old(out)@) + all.take(i as int),
        decreases n - i,
    {
        let mut pattern: String = prefix.to_owned();
        pattern.append(modules[i]);
        pattern.append(suffix);
        push_pattern(out, pattern.as_str());
        i += 1;
        assert(texts(out@) =~= texts(old(out)@) + all.take(i as int));
    }
    assert(all.take(n as int) =~= all);
}

/// The projections of self-attention.
pub open spec fn attention_module_texts() -> Seq<Seq<char>> {
    seq![
        r"self_attn\.q_proj"@,
        r"self_attn\.k_proj"@,
        r"self_attn\.v_proj"@,
        r"self_attn\.o_proj"@,
    ]
}

/// The projections of self-attention.
pub fn attention_modules() -> (r: Vec<&'static str>)
    ensures
        literals(r@) == attention_module_texts(),
{
    let r = vec![
        r"self_attn\.q_proj",
        r"self_attn\.k_proj",
        r"self_attn\.v_proj",
        r"self_attn\.o_proj",
    ];
    assert(literals(r@) =~= attention_module_texts());
    r
}

/// The projections of a gated feed-forward block.
pub open spec fn mlp_module_texts() -> Seq<Seq<char>> {
    seq![r"mlp\.gate_proj"@, r"mlp\.up_proj"@, r"mlp\.down_proj"@]
}

/// The projections of a gated feed-forward block.
pub fn mlp_modules() -> (r: Vec<&'static str>)
    ensures
        literals(r@) == mlp_module_texts(),
{
    let r = vec![r"mlp\.gate_proj", r"mlp\.up_proj", r"mlp\.down_proj"];
    assert(literals(r@) =~= mlp_module_texts());
    r
}

/// A compiled pattern of the `regex` crate.
#[verifier::external_type_specification]
#[verifier::external_body]
pub struct ExRegex(regex::Regex);

/// The error of the `regex` crate.
#[verifier::external_type_specification]
#[verifier::external_body]
pub struct ExRegexError(regex::Error);

/// Whether the `regex` crate compiles a pattern.
pub uninterp spec fn regex_compiles(pattern: Seq<char>) -> bool;

/// `regex::Regex::new`: the claim is that whether a pattern compiles depends on the
/// pattern alone. What the compiled pattern matches is not stated, for its value is
/// opaque.
pub assume_specification[ regex::Regex::new ](re: &str) -> (r: Result<regex::Regex, regex::Error>)
    ensures
        r is Ok == regex_compiles(re@),
;

/// The wording of an error, by its `Display`. It is not stated, for the error is opaque.
#[verifier::external_body]
fn error_text(error: regex::Error) -> (r: String) {
    error.to_string()
}

/// A compiled pattern is what `regex::Regex::new` makes of a text.
pub open spec fn compiled_from(regex: regex::Regex, text: Seq<char>) -> bool {
    exists|s: &str|
        s@ == text && #[trigger] call_ensures(
            regex::Regex::new,
            (s,),
            Ok::<regex::Regex, regex::Error>(regex),
        )
}

/// A text is the wording of the error with which `regex::Regex::new` answers a pattern.
pub closed spec fn worded_from(message: String, text: Seq<char>) -> bool {
    exists|s: &str, error: regex::Error|
        #![trigger call_ensures(
            regex::Regex::new,
            (s,),
            Err::<regex::Regex, regex::Error>(error),
        )]
        {
            &&& s@ == text
            &&& call_ensures(regex::Regex::new, (s,), Err::<regex::Regex, regex::Error>(error))
            &&& call_ensures(error_text, (error,), message)
        }
}

/// Compiles every pattern, in order; the first that does not compile is
/// answered with its error.
pub fn compile_patterns(patterns: &Vec<String>) -> (r: Result<Vec<regex::Regex>, LoaderError>)
    ensures
        match r {
            Ok(compiled) => {
                &&& compiled@.len() == patterns@.len()
                &&& forall|i: int|
                    0 <= i < patterns@.len() ==> regex_compiles((#[trigger] patterns@[i])@)
                &&& forall|i: int|
                    0 <= i < patterns@.len() ==> compiled_from(
                        #[trigger] compiled@[i],
                        patterns@[i]@,
                    )
            },
            Err(e) => e matches LoaderError::Pattern(message) && exists|i: int|
                {
                    &&& 0 <= i < patterns@.len()
                    &&& !regex_compiles((#[trigger] patterns@[i])@)
                    &&& forall|j: int| 0 <= j < i ==> regex_compiles((#[trigger] patterns@[j])@)
                    &&& worded_from(message, patterns@[i]@)
                },
        },
{
    let n: usize = patterns.len();
    let mut compiled: Vec<regex::Regex> = Vec::with_capacity(n);
    let mut i: usize = 0;
    while i < n
        invariant
            i <= n == patterns@.len(),
            compiled@.len() == i,
            forall|j: int| 0 <= j < i ==> regex_compiles((#[trigger] patterns@[j])@),
            forall|j: int|
                0 <= j < i ==> compiled_from(#[trigger] compiled@[j], patterns@[j]@),
        decreases n - i,
    {
        let text: &str = patterns[i].as_str();
        match regex::Regex::new(text) {
            Ok(regex) => {
                compiled.push(regex);
            },
            Err(e) => {
                assert(!regex_compiles(patterns@[i as int]@));
                let ghost error = e;
                assert(call_ensures(
                    regex::Regex::new,
                    (text,),
                    Err::<regex::Regex, regex::Error>(error),
                ));
                let message: String = error_text(e);
                assert(worded_from(message, patterns@[i as int]@));
                return Err(LoaderError::Pattern(message));
            },
        }
        i += 1;
    }
    Ok(compiled)
}

} // verus!
