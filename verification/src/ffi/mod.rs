//! What the C interface decides: status codes, messages, backends and arguments.

use vstd::prelude::*;
use vstd::utf8::{decode_utf8, valid_utf8};

use crate::text::{decimal, push_decimal, push_signed, same_text, signed_decimal};

pub mod laws;
pub mod layout;

verus! {

/// The version of the interface.
pub const ABI_VERSION_MAJOR: u32 = 0;

/// The version of the interface.
pub const ABI_VERSION_MINOR: u32 = 1;

/// The version of the interface.
pub const ABI_VERSION_PATCH: u32 = 0;

/// The outcome of a call.
#[derive(Debug, Clone, Copy, PartialEq, Eq, Structural)]
#[allow(non_camel_case_types)]
pub enum inference_status {
    INFERENCE_OK,
    INFERENCE_ERR_INVALID_ARGUMENT,
    INFERENCE_ERR_LOAD_FAILED,
    INFERENCE_ERR_RUNTIME,
    INFERENCE_ERR_OUT_OF_RANGE,
    INFERENCE_ERR_NOT_AVAILABLE,
    INFERENCE_ERR_INTERNAL,
}

impl inference_status {
    /// The number that stands for an outcome.
    pub open spec fn number(self) -> i32 {
        match self {
            inference_status::INFERENCE_OK => 0,
            inference_status::INFERENCE_ERR_INVALID_ARGUMENT => 1,
            inference_status::INFERENCE_ERR_LOAD_FAILED => 2,
            inference_status::INFERENCE_ERR_RUNTIME => 3,
            inference_status::INFERENCE_ERR_OUT_OF_RANGE => 4,
            inference_status::INFERENCE_ERR_NOT_AVAILABLE => 5,
            inference_status::INFERENCE_ERR_INTERNAL => 6,
        }
    }

    /// The number that stands for an outcome.
    pub fn code(&self) -> (r: i32)
        ensures
            r == self.number(),
    {
        match self {
            inference_status::INFERENCE_OK => 0,
            inference_status::INFERENCE_ERR_INVALID_ARGUMENT => 1,
            inference_status::INFERENCE_ERR_LOAD_FAILED => 2,
            inference_status::INFERENCE_ERR_RUNTIME => 3,
            inference_status::INFERENCE_ERR_OUT_OF_RANGE => 4,
            inference_status::INFERENCE_ERR_NOT_AVAILABLE => 5,
            inference_status::INFERENCE_ERR_INTERNAL => 6,
        }
    }
}

/// The name of a status number.
pub open spec fn status_name(status: i32) -> Seq<char> {
    match status {
        0 => "INFERENCE_OK"@,
        1 => "INFERENCE_ERR_INVALID_ARGUMENT"@,
        2 => "INFERENCE_ERR_LOAD_FAILED"@,
        3 => "INFERENCE_ERR_RUNTIME"@,
        4 => "INFERENCE_ERR_OUT_OF_RANGE"@,
        5 => "INFERENCE_ERR_NOT_AVAILABLE"@,
        6 => "INFERENCE_ERR_INTERNAL"@,
        _ => "INFERENCE_UNKNOWN_STATUS"@,
    }
}

/// The name of a status number. Any number may come in.
pub fn inference_status_string(status: i32) -> (r: &'static str)
    ensures
        r@ == status_name(status),
{
    match status {
        0 => "INFERENCE_OK",
        1 => "INFERENCE_ERR_INVALID_ARGUMENT",
        2 => "INFERENCE_ERR_LOAD_FAILED",
        3 => "INFERENCE_ERR_RUNTIME",
        4 => "INFERENCE_ERR_OUT_OF_RANGE",
        5 => "INFERENCE_ERR_NOT_AVAILABLE",
        6 => "INFERENCE_ERR_INTERNAL",
        _ => "INFERENCE_UNKNOWN_STATUS",
    }
}

/// A version as one number.
pub open spec fn packed_version(major: u32, minor: u32, patch: u32) -> u32 {
    (major << 16) | (minor << 8) | patch
}

/// The version of the interface as one number.
pub fn inference_abi_version() -> (r: u32)
    ensures
        r == packed_version(ABI_VERSION_MAJOR, ABI_VERSION_MINOR, ABI_VERSION_PATCH),
        r == 256,
{
    assert((0u32 << 16) | (1u32 << 8) | 0u32 == 256u32) by (bit_vector);
    (ABI_VERSION_MAJOR << 16) | (ABI_VERSION_MINOR << 8) | ABI_VERSION_PATCH
}

/// The parts of a version can be read back from the number, where the lower ones fit a
/// byte.
pub proof fn law_version_reads_back(major: u32, minor: u32, patch: u32)
    requires
        major < 65536,
        minor < 256,
        patch < 256,
    ensures
        packed_version(major, minor, patch) >> 16 == major,
        (packed_version(major, minor, patch) >> 8) & 0xff == minor,
        packed_version(major, minor, patch) & 0xff == patch,
{
    assert(((major << 16) | (minor << 8) | patch) >> 16 == major && (((major << 16) | (minor << 8)
        | patch) >> 8) & 0xff == minor && ((major << 16) | (minor << 8) | patch) & 0xff == patch)
        by (bit_vector)
        requires
            major < 65536,
            minor < 256,
            patch < 256,
    ;
}

/// The backend that a build is for.
pub fn backend_tag(cuda: bool, metal: bool) -> (r: &'static str)
    ensures
        r@ == (if cuda {
            "cuda"@
        } else if metal {
            "metal"@
        } else {
            "cpu"@
        }),
{
    if cuda {
        "cuda"
    } else if metal {
        "metal"
    } else {
        "cpu"
    }
}

/// The name of a build.
pub fn build_version(version: &str, tag: &str) -> (r: String)
    ensures
        r@ == "inference.rs "@ + version@ + " ("@ + tag@ + ")"@,
{
    let mut text: String = "inference.rs ".to_string();
    text.append(version);
    text.append(" (");
    text.append(tag);
    text.append(")");
    text
}

/// A failed call: its status, and the detail for whoever asks.
#[derive(Debug)]
pub struct Failure {
    pub status: inference_status,
    pub message: String,
}

impl Failure {
    /// The failure with a status and a text.
    pub open spec fn says(self, status: inference_status, text: Seq<char>) -> bool {
        self.status == status && self.message@ == text
    }

    /// The failure of an argument with a text.
    pub open spec fn refuses(self, text: Seq<char>) -> bool {
        self.says(inference_status::INFERENCE_ERR_INVALID_ARGUMENT, text)
    }

    pub fn new(status: inference_status, message: String) -> (r: Failure)
        ensures
            r.says(status, message@),
    {
        Failure { status, message }
    }

    pub fn invalid(message: String) -> (r: Failure)
        ensures
            r.refuses(message@),
    {
        Failure { status: inference_status::INFERENCE_ERR_INVALID_ARGUMENT, message }
    }
}

/// A text without the characters that end a C string.
pub open spec fn without_nul(s: Seq<char>) -> Seq<char>
    decreases s.len(),
{
    if s.len() == 0 {
        Seq::empty()
    } else {
        let before = without_nul(s.drop_last());
        if s.last() == '\0' {
            before
        } else {
            before.push(s.last())
        }
    }
}

/// A message as it is kept for C: a NUL would cut it short, so all are dropped.
pub fn c_message(message: &str) -> (r: String)
    ensures
        r@ == without_nul(message@),
{
    let n: usize = message.unicode_len();
    let mut kept: String = String::new();
    let mut i: usize = 0;
    assert(message@.take(0) =~= Seq::<char>::empty());
    while i < n
        invariant
            i <= n == message@.len(),
            kept@ == without_nul(message@.take(i as int)),
        decreases n - i,
    {
        assert(message@.take(i + 1).drop_last() =~= message@.take(i as int));
        if message.get_char(i) != '\0' {
            kept.append(message.substring_char(i, i + 1));
            assert(message@.subrange(i as int, i + 1) =~= seq![message@[i as int]]);
        }
        i += 1;
    }
    assert(message@.take(n as int) =~= message@);
    kept
}

/// A kept message holds no NUL, and one without NUL is kept as it is.
pub proof fn law_kept_messages_hold_no_nul(s: Seq<char>)
    ensures
        !without_nul(s).contains('\0'),
        !s.contains('\0') ==> without_nul(s) == s,
    decreases s.len(),
{
    if s.len() > 0 {
        let head = s.drop_last();
        law_kept_messages_hold_no_nul(head);
        let kept = without_nul(s);
        if kept.contains('\0') {
            let k = choose|k: int| 0 <= k < kept.len() && kept[k] == '\0';
            if k < without_nul(head).len() {
                assert(without_nul(head)[k] == '\0');
            }
        }
        if !s.contains('\0') {
            assert(s[s.len() - 1] != '\0');
            assert(!head.contains('\0')) by {
                if head.contains('\0') {
                    let k = choose|k: int| 0 <= k < head.len() && head[k] == '\0';
                    assert(s[k] == '\0');
                }
            }
            assert(head.push(s.last()) =~= s);
        }
    } else {
        assert(without_nul(s) =~= s);
    }
}

impl Failure {
    /// The failure is one, and says something even without its NULs.
    pub open spec fn speaks(self) -> bool {
        self.status != inference_status::INFERENCE_OK && without_nul(self.message@).len() > 0
    }
}

/// A text with a character that is no NUL keeps something.
pub proof fn lemma_something_is_kept(s: Seq<char>, i: int)
    requires
        0 <= i < s.len(),
        s[i] != '\0',
    ensures
        without_nul(s).len() > 0,
    decreases s.len(),
{
    if i < s.len() - 1 {
        lemma_something_is_kept(s.drop_last(), i);
    }
}

/// How a call ended.
#[derive(Debug)]
pub enum CallEnd {
    Finished,
    Failed(Failure),
    /// The call panicked, with a text if there was one.
    Panicked(Option<String>),
}

/// What a caller is told of a call.
#[derive(Debug)]
pub struct CallReport {
    pub status: inference_status,
    /// What is kept as the last error.
    pub last_error: String,
}

/// What a caller is told of a call.
pub open spec fn is_report(r: CallReport, end: CallEnd) -> bool {
    match end {
        CallEnd::Finished => r.status == inference_status::INFERENCE_OK && r.last_error@ == ""@,
        CallEnd::Failed(failure) => r.status == failure.status && r.last_error@ == without_nul(
            failure.message@,
        ),
        CallEnd::Panicked(detail) => r.status == inference_status::INFERENCE_ERR_INTERNAL
            && r.last_error@ == without_nul(
            "internal error (panic): "@ + (match detail {
                Some(text) => text@,
                None => "unknown panic"@,
            }),
        ),
    }
}

/// The last error is empty exactly where the status is that of success, however the call
/// ended, if a failure says something.
pub proof fn law_status_and_last_error_agree(r: CallReport, end: CallEnd)
    requires
        is_report(r, end),
        end matches CallEnd::Failed(failure) ==> failure.speaks(),
    ensures
        r.status == inference_status::INFERENCE_OK <==> end is Finished,
        r.status == inference_status::INFERENCE_OK <==> r.last_error@.len() == 0,
{
    reveal_strlit("");
    reveal_strlit("internal error (panic): ");
    if let CallEnd::Panicked(detail) = end {
        let text = "internal error (panic): "@ + (match detail {
            Some(said) => said@,
            None => "unknown panic"@,
        });
        assert(text[0] == 'i');
        lemma_something_is_kept(text, 0);
    }
}

/// What a caller is told of a call: success clears the last error, a failure sets it,
/// and a panic becomes an internal error.
pub fn report(end: CallEnd) -> (r: CallReport)
    ensures
        is_report(r, end),
{
    match end {
        CallEnd::Finished => CallReport {
            status: inference_status::INFERENCE_OK,
            last_error: "".to_string(),
        },
        CallEnd::Failed(failure) => CallReport {
            status: failure.status,
            last_error: c_message(failure.message.as_str()),
        },
        CallEnd::Panicked(detail) => {
            let mut text: String = "internal error (panic): ".to_string();
            match detail {
                Some(said) => text.append(said.as_str()),
                None => text.append("unknown panic"),
            }
            CallReport {
                status: inference_status::INFERENCE_ERR_INTERNAL,
                last_error: c_message(text.as_str()),
            }
        },
    }
}

/// The text of bytes, by `std::str::from_utf8`: there is one exactly where they are
/// valid UTF-8, and then it is what they encode.
#[verifier::external_body]
fn utf8_text(bytes: &[u8]) -> (r: Option<String>)
    ensures
        match r {
            Some(text) => valid_utf8(bytes@) && text@ == decode_utf8(bytes@),
            None => !valid_utf8(bytes@),
        },
{
    std::str::from_utf8(bytes).ok().map(|s| s.to_string())
}

/// The text of an argument. One that is missing or not text is refused.
pub fn arg_str(bytes: Option<&Vec<u8>>, name: &str) -> (r: Result<String, Failure>)
    ensures
        match (bytes, r) {
            (None, Err(f)) => f.refuses(name@ + " is NULL"@),
            (None, Ok(_)) => false,
            (Some(b), Ok(text)) => valid_utf8(b@) && text@ == decode_utf8(b@),
            (Some(b), Err(f)) => !valid_utf8(b@) && f.refuses(name@ + " is not valid UTF-8"@),
        },
{
    match bytes {
        None => {
            let mut text: String = name.to_string();
            text.append(" is NULL");
            Err(Failure::invalid(text))
        },
        Some(b) => match utf8_text(b.as_slice()) {
            Some(text) => Ok(text),
            None => {
                let mut text: String = name.to_string();
                text.append(" is not valid UTF-8");
                Err(Failure::invalid(text))
            },
        },
    }
}

/// What a caller asks for: a backend by name, a device and a number of threads.
#[allow(non_camel_case_types)]
pub struct inference_backend_config {
    /// No name asks for the CPU.
    pub backend: Option<Vec<u8>>,
    pub device: i32,
    pub threads: i32,
}

/// The device that a model runs on.
#[derive(Debug, Clone, Copy, PartialEq, Eq, Structural)]
pub enum BackendDevice {
    Cpu,
    Cuda(usize),
    Metal(usize),
}

/// What a model runs on.
#[derive(Debug, Clone, Copy, PartialEq, Eq, Structural)]
pub struct Backend {
    pub device: BackendDevice,
    /// Without a number, one thread per physical core.
    pub cpu_threads: Option<usize>,
}

/// A text in quotes, as `Debug` of `str` writes it.
pub uninterp spec fn quoted(s: Seq<char>) -> Seq<char>;

/// A text in quotes, by `Debug` of `str`.
#[verifier::external_body]
fn quote(s: &str) -> (r: String)
    ensures
        r@ == quoted(s@),
{
    format!("{s:?}")
}

/// The threads that were asked for: none, where the number is not positive.
pub open spec fn wanted_threads(threads: i32) -> Option<usize> {
    if threads > 0 {
        Some(threads as usize)
    } else {
        None
    }
}

/// The device of a backend by name, or why there is none.
pub open spec fn device_of(
    name: Seq<char>,
    ordinal: usize,
    cuda: bool,
    metal: bool,
) -> Result<BackendDevice, (inference_status, Seq<char>)> {
    if name == "cpu"@ {
        Ok(BackendDevice::Cpu)
    } else if name == "cuda"@ {
        if cuda {
            Ok(BackendDevice::Cuda(ordinal))
        } else {
            Err(
                (
                    inference_status::INFERENCE_ERR_NOT_AVAILABLE,
                    "this build has no CUDA support"@,
                ),
            )
        }
    } else if name == "metal"@ {
        if metal {
            Ok(BackendDevice::Metal(ordinal))
        } else {
            Err(
                (
                    inference_status::INFERENCE_ERR_NOT_AVAILABLE,
                    "this build has no Metal support"@,
                ),
            )
        }
    } else {
        Err(
            (
                inference_status::INFERENCE_ERR_INVALID_ARGUMENT,
                "unknown backend "@ + quoted(name) + "; expected cpu, cuda or metal"@,
            ),
        )
    }
}

/// Chooses a device by name, for a build with or without CUDA and Metal.
pub fn choose_device(name: &str, ordinal: usize, cuda: bool, metal: bool) -> (r: Result<
    BackendDevice,
    Failure,
>)
    ensures
        match (r, device_of(name@, ordinal, cuda, metal)) {
            (Ok(device), Ok(wanted)) => device == wanted,
            (Err(f), Err((status, text))) => f.says(status, text),
            _ => false,
        },
{
    proof {
        reveal_strlit("cpu");
        reveal_strlit("cuda");
        reveal_strlit("metal");
    }
    if same_text(name, "cpu") {
        return Ok(BackendDevice::Cpu);
    }
    if same_text(name, "cuda") {
        if cuda {
            return Ok(BackendDevice::Cuda(ordinal));
        }
        return Err(
            Failure::new(
                inference_status::INFERENCE_ERR_NOT_AVAILABLE,
                "this build has no CUDA support".to_string(),
            ),
        );
    }
    if same_text(name, "metal") {
        if metal {
            return Ok(BackendDevice::Metal(ordinal));
        }
        return Err(
            Failure::new(
                inference_status::INFERENCE_ERR_NOT_AVAILABLE,
                "this build has no Metal support".to_string(),
            ),
        );
    }
    let mut text: String = "unknown backend ".to_string();
    text.append(quote(name).as_str());
    text.append("; expected cpu, cuda or metal");
    Err(Failure::invalid(text))
}

/// The failure of a device that cannot be opened.
pub fn device_failure(what: &str, ordinal: usize, detail: &str) -> (r: Failure)
    ensures
        r.says(
            inference_status::INFERENCE_ERR_NOT_AVAILABLE,
            what@ + " device "@ + decimal(ordinal as nat) + ": "@ + detail@,
        ),
        r.speaks(),
{
    proof {
        reveal_strlit(" device ");
        let text = what@ + " device "@ + decimal(ordinal as nat) + ": "@ + detail@;
        assert(text[what@.len() as int] == ' ');
        lemma_something_is_kept(text, what@.len() as int);
    }
    let mut text: String = what.to_string();
    text.append(" device ");
    push_decimal(&mut text, ordinal);
    text.append(": ");
    text.append(detail);
    Failure::new(inference_status::INFERENCE_ERR_NOT_AVAILABLE, text)
}

/// What a caller's configuration asks for, or why there is no such backend. Without a
/// configuration it is the CPU. A name that is not text comes first among the failures, then
/// a negative device, then the name.
pub open spec fn backend_of(
    config: Option<&inference_backend_config>,
    cuda: bool,
    metal: bool,
) -> Result<Backend, (inference_status, Seq<char>)> {
    match config {
        None => Ok(Backend { device: BackendDevice::Cpu, cpu_threads: None }),
        Some(c) => {
            let name = match c.backend {
                None => "cpu"@,
                Some(bytes) => decode_utf8(bytes@),
            };
            if c.backend matches Some(bytes) && !valid_utf8(bytes@) {
                Err(
                    (
                        inference_status::INFERENCE_ERR_INVALID_ARGUMENT,
                        "backend is not valid UTF-8"@,
                    ),
                )
            } else if c.device < 0 {
                Err(
                    (
                        inference_status::INFERENCE_ERR_INVALID_ARGUMENT,
                        "device "@ + signed_decimal(c.device as int) + " is negative"@,
                    ),
                )
            } else {
                match device_of(name, c.device as usize, cuda, metal) {
                    Ok(device) => Ok(Backend { device, cpu_threads: wanted_threads(c.threads) }),
                    Err(e) => Err(e),
                }
            }
        },
    }
}

/// Every refusal of a backend says something, and its status is that of a failure.
pub proof fn lemma_backend_refusals_speak(
    config: Option<&inference_backend_config>,
    cuda: bool,
    metal: bool,
)
    ensures
        backend_of(config, cuda, metal) matches Err((status, text)) ==> status
            != inference_status::INFERENCE_OK && without_nul(text).len() > 0,
{
    reveal_strlit("backend is not valid UTF-8");
    reveal_strlit("device ");
    reveal_strlit("this build has no CUDA support");
    reveal_strlit("this build has no Metal support");
    reveal_strlit("unknown backend ");
    if let Err((status, text)) = backend_of(config, cuda, metal) {
        assert(text[0] == 'b' || text[0] == 'd' || text[0] == 't' || text[0] == 'u');
        lemma_something_is_kept(text, 0);
    }
}

/// What a caller's configuration asks for.
pub fn backend_from(config: Option<&inference_backend_config>, cuda: bool, metal: bool) -> (r:
    Result<Backend, Failure>)
    ensures
        match (r, backend_of(config, cuda, metal)) {
            (Ok(b), Ok(wanted)) => b == wanted,
            (Err(f), Err((status, text))) => f.says(status, text),
            _ => false,
        },
{
    match config {
        None => Ok(Backend { device: BackendDevice::Cpu, cpu_threads: None }),
        Some(c) => {
            let name: String = match &c.backend {
                None => "cpu".to_string(),
                Some(bytes) => match arg_str(Some(bytes), "backend") {
                    Ok(text) => text,
                    Err(f) => {
                        proof {
                            reveal_strlit("backend");
                            reveal_strlit(" is not valid UTF-8");
                            reveal_strlit("backend is not valid UTF-8");
                            assert("backend"@ + " is not valid UTF-8"@
                                =~= "backend is not valid UTF-8"@);
                        }
                        return Err(f);
                    },
                },
            };
            if c.device < 0 {
                let mut text: String = "device ".to_string();
                push_signed(&mut text, c.device);
                text.append(" is negative");
                return Err(Failure::invalid(text));
            }
            let ordinal: usize = c.device as usize;
            let cpu_threads: Option<usize> = if c.threads > 0 {
                Some(c.threads as usize)
            } else {
                None
            };
            match choose_device(name.as_str(), ordinal, cuda, metal) {
                Ok(device) => Ok(Backend { device, cpu_threads }),
                Err(f) => Err(f),
            }
        },
    }
}

} // verus!
