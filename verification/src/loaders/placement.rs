//! Which layer a tensor belongs to, by its name.

use vstd::prelude::*;
use vstd::string::*;

use crate::ops::{min, min_usize};

verus! {

/// Where a tensor is loaded: with the layer of an index, or on the base device.
#[derive(Debug, Clone, Copy, PartialEq, Eq, Structural)]
pub enum DeviceForLoadTensor {
    Base,
    Idx(usize),
}

/// The pattern that finds the layer index in a tensor name.
pub const LAYER_PATTERN: &'static str = r"\.layers\.(\d+)\.";

/// The pattern for models whose layers lie in a nested language model.
pub const NESTED_LAYER_PATTERN: &'static str = r"model\.language_model\.layers\.(\d+)\.";

/// The same, for names that begin with it.
pub const ROOTED_LAYER_PATTERN: &'static str = r"^model\.language_model\.layers\.(\d+)\.";

/// What `regex::Regex::new`, `Regex::captures` and `Captures::get` find in turn:
/// nothing where the pattern does not compile, else the text of the first group in
/// the leftmost match, if there is one.
pub uninterp spec fn regex_first_group(pattern: Seq<char>, name: Seq<char>) -> Option<
    Option<Seq<char>>,
>;

/// The characters of a found group.
pub open spec fn group_text(group: Option<Option<String>>) -> Option<Option<Seq<char>>> {
    match group {
        None => None,
        Some(None) => Some(None),
        Some(Some(s)) => Some(Some(s@)),
    }
}

/// `regex::Regex::new`, then `captures`, `get(1)` and `as_str` on what it
/// compiled. The claim is that the outcome depends on the pattern and the name
/// alone; which text a pattern matches is left to the `regex` crate.
#[verifier::external_body]
fn find_first_group(pattern: &str, name: &str) -> (r: Option<Option<String>>)
    ensures
        group_text(r) == regex_first_group(pattern@, name@),
{
    match regex::Regex::new(pattern) {
        Ok(re) => Some(
            re.captures(name).and_then(|captures| captures.get(1)).map(|m| m.as_str().to_owned()),
        ),
        Err(_) => None,
    }
}

/// The digit that a character stands for.
pub open spec fn digit_of(c: char) -> Option<nat> {
    if '0' <= c <= '9' {
        Some((c as nat - '0' as nat) as nat)
    } else {
        None
    }
}

/// The number that a text of decimal digits stands for.
pub open spec fn digits_value(s: Seq<char>) -> Option<nat>
    decreases s.len(),
{
    if s.len() == 0 {
        Some(0)
    } else {
        match (digits_value(s.drop_last()), digit_of(s.last())) {
            (Some(head), Some(d)) => Some(head * 10 + d),
            _ => None,
        }
    }
}

/// The index that a text stands for: one or more decimal digits whose value
/// fits a machine word.
pub open spec fn index_value(s: Seq<char>) -> Option<nat> {
    match digits_value(s) {
        Some(n) if s.len() > 0 && n <= usize::MAX => Some(n),
        _ => None,
    }
}

/// Leading digits stand for no more than all of them.
proof fn lemma_digits_prefix(s: Seq<char>, n: int)
    requires
        0 <= n <= s.len(),
    ensures
        digits_value(s.take(n)) is None ==> digits_value(s) is None,
        digits_value(s) matches Some(v) ==> digits_value(s.take(n)) matches Some(u) && u <= v,
    decreases s.len() - n,
{
    if n == s.len() {
        assert(s.take(n) =~= s);
    } else {
        lemma_digits_prefix(s, n + 1);
        assert(s.take(n + 1).drop_last() =~= s.take(n));
    }
}

/// The index that a text stands for.
pub fn parse_index(s: &str) -> (r: Option<usize>)
    ensures
        match index_value(s@) {
            Some(n) => r == Some(n as usize),
            None => r is None,
        },
{
    let n: usize = s.unicode_len();
    if n == 0 {
        return None;
    }
    let mut value: usize = 0;
    let mut i: usize = 0;
    assert(s@.take(0) =~= Seq::<char>::empty());
    while i < n
        invariant
            i <= n == s@.len(),
            digits_value(s@.take(i as int)) == Some(value as nat),
        decreases n - i,
    {
        let c: char = s.get_char(i);
        proof {
            lemma_digits_prefix(s@, i + 1);
            assert(s@.take(i + 1).drop_last() =~= s@.take(i as int));
            assert(s@.take(i + 1).last() == c);
        }
        if c < '0' || c > '9' {
            return None;
        }
        let d: usize = (c as u32 - 48) as usize;
        match value.checked_mul(10) {
            Some(scaled) => match scaled.checked_add(d) {
                Some(next) => {
                    value = next;
                },
                None => {
                    return None;
                },
            },
            None => {
                return None;
            },
        }
        i += 1;
    }
    assert(s@.take(n as int) =~= s@);
    Some(value)
}

/// The place of a tensor whose layer index was read as `group`: that layer, but
/// none beyond `num_layers`.
pub open spec fn clamped_place(
    group: Option<Option<Seq<char>>>,
    num_layers: usize,
) -> DeviceForLoadTensor {
    match group {
        Some(Some(s)) => match index_value(s) {
            Some(l) => DeviceForLoadTensor::Idx(min(l as int, num_layers as int) as usize),
            None => DeviceForLoadTensor::Base,
        },
        _ => DeviceForLoadTensor::Base,
    }
}

/// Places a tensor by what was found in its name.
pub fn place_clamped(group: Option<Option<String>>, num_layers: usize) -> (r: DeviceForLoadTensor)
    ensures
        r == clamped_place(group_text(group), num_layers),
{
    match group {
        Some(Some(s)) => match parse_index(s.as_str()) {
            Some(l) => DeviceForLoadTensor::Idx(min_usize(l, num_layers)),
            None => DeviceForLoadTensor::Base,
        },
        _ => DeviceForLoadTensor::Base,
    }
}

/// The place of a tensor whose layer index was read as `group`, where an index
/// that is not one of `num_layers` layers does not count.
pub open spec fn bounded_place(
    group: Option<Option<Seq<char>>>,
    num_layers: usize,
) -> DeviceForLoadTensor {
    match group {
        Some(Some(s)) => match index_value(s) {
            Some(l) => if l < num_layers {
                DeviceForLoadTensor::Idx(l as usize)
            } else {
                DeviceForLoadTensor::Base
            },
            None => DeviceForLoadTensor::Base,
        },
        _ => DeviceForLoadTensor::Base,
    }
}

/// Places a tensor by what was found in its name.
pub fn place_bounded(group: Option<Option<String>>, num_layers: usize) -> (r: DeviceForLoadTensor)
    ensures
        r == bounded_place(group_text(group), num_layers),
{
    match group {
        Some(Some(s)) => match parse_index(s.as_str()) {
            Some(l) => if l < num_layers {
                DeviceForLoadTensor::Idx(l)
            } else {
                DeviceForLoadTensor::Base
            },
            None => DeviceForLoadTensor::Base,
        },
        _ => DeviceForLoadTensor::Base,
    }
}

/// The place of a tensor while a model is loaded. Everything goes to the base
/// device while weights are quantized on load.
pub fn get_device_for_tensor(name: &str, num_layers: usize, loading_isq: bool) -> (r:
    DeviceForLoadTensor)
    ensures
        r == (if loading_isq {
            DeviceForLoadTensor::Base
        } else {
            clamped_place(regex_first_group(LAYER_PATTERN@, name@), num_layers)
        }),
{
    if loading_isq {
        DeviceForLoadTensor::Base
    } else {
        place_clamped(find_first_group(LAYER_PATTERN, name), num_layers)
    }
}

/// The same for a model whose layers lie in a nested language model.
pub fn get_device_for_nested_tensor(name: &str, num_layers: usize, loading_isq: bool) -> (r:
    DeviceForLoadTensor)
    ensures
        r == (if loading_isq {
            DeviceForLoadTensor::Base
        } else {
            clamped_place(regex_first_group(NESTED_LAYER_PATTERN@, name@), num_layers)
        }),
{
    if loading_isq {
        DeviceForLoadTensor::Base
    } else {
        place_clamped(find_first_group(NESTED_LAYER_PATTERN, name), num_layers)
    }
}

/// The same for names that begin with the nested language model; an index
/// beyond the layers goes to the base device.
pub fn get_device_for_rooted_tensor(name: &str, num_layers: usize, loading_isq: bool) -> (r:
    DeviceForLoadTensor)
    ensures
        r == (if loading_isq {
            DeviceForLoadTensor::Base
        } else {
            bounded_place(regex_first_group(ROOTED_LAYER_PATTERN@, name@), num_layers)
        }),
{
    if loading_isq {
        DeviceForLoadTensor::Base
    } else {
        place_bounded(find_first_group(ROOTED_LAYER_PATTERN, name), num_layers)
    }
}

} // verus!
