//! The registry pull protocol: authenticate, resolve the manifest (selecting
//! the `linux/amd64` descriptor from a manifest list), then fetch and
//! decompress each layer blob in manifest order.
//!
//! The protocol is driven as a state machine: [`PullSession::pull_step`] maps
//! the current state and the outcome of the last network or filesystem step
//! to the next state and the next action. The caller performs the network
//! transfers, the JSON decoding of responses into the plain types below, and
//! the unpacking of the returned tar archives, and feeds the outcome back as
//! a [`PullEvent`].

use vstd::prelude::*;
use crate::image_ref::{parse_image, spec_parse_image};
use crate::text::str_eq;

verus! {

/// A failure of one step of the pull protocol: the auth request, the
/// platform resolution, the transfer itself, or the decoding of a response.
#[derive(Debug, Clone, Copy, PartialEq, Eq, Structural)]
pub enum RegistryError {
    Auth,
    PlatformNotFound,
    Transport,
    Decode,
}

/// Why a pull stopped: a protocol failure, or a layer that could not be
/// unpacked onto the destination directory.
#[derive(Debug, Clone, Copy, PartialEq, Eq, Structural)]
pub enum PullError {
    Registry(RegistryError),
    Extraction,
}

/// The platform a manifest-list descriptor is built for.
#[derive(Debug, Clone, PartialEq, Eq)]
pub struct Platform {
    pub architecture: String,
    pub os: String,
}

/// One descriptor of a manifest list: the digest of a concrete manifest,
/// tagged with its platform.
#[derive(Debug, Clone, PartialEq, Eq)]
pub struct PlatformManifest {
    pub digest: String,
    pub platform: Platform,
}

/// A manifest list: per-platform manifest descriptors.
#[derive(Debug, Clone, PartialEq, Eq)]
pub struct ManifestList {
    pub manifests: Vec<PlatformManifest>,
}

/// A concrete manifest: the ordered layer digests of one platform build.
#[derive(Debug, Clone, PartialEq, Eq)]
pub struct Manifest {
    pub layers: Vec<String>,
}

pub open spec fn linux_os() -> Seq<char> {
    seq!['l', 'i', 'n', 'u', 'x']
}

pub open spec fn amd64_arch() -> Seq<char> {
    seq!['a', 'm', 'd', '6', '4']
}

/// The descriptor targets `linux/amd64`.
pub open spec fn is_target_platform(m: PlatformManifest) -> bool {
    m.platform.os@ == linux_os() && m.platform.architecture@ == amd64_arch()
}

/// The least index `j >= i` of a `linux/amd64` descriptor, or `ms.len()` if
/// none follows `i`.
pub open spec fn first_target(ms: Seq<PlatformManifest>, i: int) -> int
    decreases ms.len() - i,
{
    if i < 0 || i >= ms.len() {
        ms.len() as int
    } else if is_target_platform(ms[i]) {
        i
    } else {
        first_target(ms, i + 1)
    }
}

/// Select the one descriptor of `list` to pull: the first whose platform is
/// `linux/amd64`. A list without such a descriptor is a resolution failure,
/// never a silent fallback.
pub fn select_platform(list: &ManifestList) -> (r: Result<String, RegistryError>)
    ensures
        ({
            let k = first_target(list.manifests@, 0);
            if k < list.manifests@.len() {
                r == Ok::<String, RegistryError>(list.manifests@[k].digest)
            } else {
                r == Err::<String, RegistryError>(RegistryError::PlatformNotFound)
            }
        }),
{
    let n = list.manifests.len();
    let mut i: usize = 0;
    while i < n
        invariant
            0 <= i <= n,
            n == list.manifests@.len(),
            first_target(list.manifests@, 0) == first_target(list.manifests@, i as int),
        decreases n - i,
    {
        let m = &list.manifests[i];
        let os_ok = str_eq(m.platform.os.as_str(), "linux");
        let arch_ok = str_eq(m.platform.architecture.as_str(), "amd64");
        proof {
            reveal_strlit("linux");
            reveal_strlit("amd64");
            assert("linux"@ =~= linux_os());
            assert("amd64"@ =~= amd64_arch());
        }
        if os_ok && arch_ok {
            return Ok(m.digest.clone());
        }
        i = i + 1;
    }
    Err(RegistryError::PlatformNotFound)
}

// ---------------------------------------------------------------------------
// Layer decompression
// ---------------------------------------------------------------------------

/// What decompressing a gzip stream yields: the inflated bytes, or nothing
/// when the stream is not a well-formed gzip stream. A function of the input
/// bytes alone.
pub uninterp spec fn gunzip_of(data: Seq<u8>) -> Option<Seq<u8>>;

/// Relies on flate2::read::GzDecoder (with std::io::Read::read_to_end): the
/// decompressed form of a gzip stream depends on the input bytes alone, and
/// a malformed stream fails.
#[verifier::external_body]
fn gunzip(data: &Vec<u8>) -> (r: Result<Vec<u8>, ()>)
    ensures
        r is Ok <==> gunzip_of(data@) is Some,
        r matches Ok(b) ==> gunzip_of(data@) == Some(b@),
{
    let mut decoder = flate2::read::GzDecoder::new(&data[..]);
    let mut out: Vec<u8> = Vec::new();
    match std::io::Read::read_to_end(&mut decoder, &mut out) {
        Ok(_) => Ok(out),
        Err(_) => Err(()),
    }
}

/// Decompress one layer blob (a gzip-compressed tar archive) into the tar
/// bytes it holds; a malformed blob is a decode failure.
pub fn decode_layer(blob: &Vec<u8>) -> (r: Result<Vec<u8>, RegistryError>)
    ensures
        r matches Ok(tar) ==> gunzip_of(blob@) == Some(tar@),
        r is Err ==> r == Err::<Vec<u8>, RegistryError>(RegistryError::Decode) && gunzip_of(
            blob@,
        ) is None,
{
    match gunzip(blob) {
        Ok(tar) => Ok(tar),
        Err(_) => Err(RegistryError::Decode),
    }
}

// ---------------------------------------------------------------------------
// The pull session
// ---------------------------------------------------------------------------

/// Where a pull stands: which response it waits for next.
#[derive(Debug, PartialEq, Eq)]
pub enum PullState {
    /// Waiting for the bearer token of the auth endpoint.
    FetchingToken,
    /// Waiting for the manifest named by `reference`; `resolved` says whether
    /// `reference` is already a digest selected from a manifest list.
    FetchingManifest { token: String, reference: String, resolved: bool },
    /// Waiting for the blob of `layers[next]`.
    FetchingLayers { token: String, layers: Vec<String>, next: usize },
    /// Waiting for the unpack of the blob of `layers[next]` to finish.
    ExtractingLayer { token: String, layers: Vec<String>, next: usize },
    /// Every layer is fetched and extracted.
    Finished,
    /// The pull stopped.
    Failed(PullError),
}

/// The outcome of the last action, fed back by the caller.
#[derive(Debug, PartialEq, Eq)]
pub enum PullEvent {
    /// The bearer token, taken from a successful auth response.
    Token(String),
    /// A manifest request answered with a manifest list.
    List(ManifestList),
    /// A manifest request answered with a concrete manifest.
    Doc(Manifest),
    /// A blob request answered with the (gzip-compressed) layer bytes.
    Blob(Vec<u8>),
    /// The last returned archive was unpacked onto the destination.
    Extracted,
    /// A request was refused for want of authorization, or the auth response
    /// was malformed.
    AuthFailed,
    /// A transfer failed below the protocol: the registry was unreachable.
    TransportFailed,
    /// A response could not be decoded into the expected shape.
    DecodeFailed,
    /// The last returned archive could not be unpacked.
    ExtractionFailed,
}

/// What the caller must do next.
#[derive(Debug, PartialEq, Eq)]
pub enum PullAction {
    /// Request a bearer token scoped to pulling `repository`.
    FetchToken { repository: String },
    /// Request the manifest of `repository` named `reference`, with the
    /// token, accepting either a manifest or a manifest list.
    FetchManifest { repository: String, reference: String, token: String },
    /// Request the blob of `digest` from `repository`, with the token.
    FetchBlob { repository: String, digest: String, token: String },
    /// Unpack `archive` (tar bytes) onto the destination directory, letting
    /// its files overwrite earlier layers' files.
    ExtractLayer { archive: Vec<u8> },
    /// The pull is complete.
    Done,
    /// The pull stopped with this failure.
    Abort(PullError),
}

/// One image pull: the parsed reference and the protocol position.
#[derive(Debug)]
pub struct PullSession {
    pub repository: String,
    pub tag: String,
    pub state: PullState,
}

/// States that index into their layer list stay in bounds.
pub open spec fn wf_state(st: PullState) -> bool {
    match st {
        PullState::FetchingLayers { layers, next, .. } => (next as int) < layers@.len(),
        PullState::ExtractingLayer { layers, next, .. } => (next as int) < layers@.len(),
        _ => true,
    }
}

/// Which events can answer which state: each protocol step only sees the
/// outcomes its own request can produce.
pub open spec fn event_fits(st: PullState, event: PullEvent) -> bool {
    match st {
        PullState::FetchingToken => event is Token || event is AuthFailed || event is TransportFailed
            || event is DecodeFailed,
        PullState::FetchingManifest { .. } => event is List || event is Doc || event is AuthFailed
            || event is TransportFailed || event is DecodeFailed,
        PullState::FetchingLayers { .. } => event is Blob || event is AuthFailed
            || event is TransportFailed,
        PullState::ExtractingLayer { .. } => event is Extracted || event is ExtractionFailed,
        PullState::Finished => false,
        PullState::Failed(_) => false,
    }
}

/// The state after one protocol step: the token answer leads to the manifest
/// request; a manifest list is resolved to its `linux/amd64` descriptor and
/// refetched by digest (a second list is a decode failure); a concrete
/// manifest starts the layer sequence; each blob is decompressed and then
/// extracted; layers advance in manifest order until done. Every reported
/// failure stops the session with its distinct error.
pub open spec fn spec_next_state(s: PullSession, event: PullEvent) -> PullState {
    match (s.state, event) {
        (PullState::FetchingToken, PullEvent::Token(tok)) => PullState::FetchingManifest {
            token: tok,
            reference: s.tag,
            resolved: false,
        },
        (PullState::FetchingManifest { token, reference, resolved }, PullEvent::List(list)) => {
            if resolved {
                PullState::Failed(PullError::Registry(RegistryError::Decode))
            } else {
                let k = first_target(list.manifests@, 0);
                if k < list.manifests@.len() {
                    PullState::FetchingManifest {
                        token,
                        reference: list.manifests@[k].digest,
                        resolved: true,
                    }
                } else {
                    PullState::Failed(PullError::Registry(RegistryError::PlatformNotFound))
                }
            }
        },
        (PullState::FetchingManifest { token, .. }, PullEvent::Doc(m)) => {
            if m.layers@.len() == 0 {
                PullState::Finished
            } else {
                PullState::FetchingLayers { token, layers: m.layers, next: 0 }
            }
        },
        (PullState::FetchingLayers { token, layers, next }, PullEvent::Blob(bytes)) => {
            if gunzip_of(bytes@) is Some {
                PullState::ExtractingLayer { token, layers, next }
            } else {
                PullState::Failed(PullError::Registry(RegistryError::Decode))
            }
        },
        (PullState::ExtractingLayer { token, layers, next }, PullEvent::Extracted) => {
            if next + 1 < layers@.len() {
                PullState::FetchingLayers { token, layers, next: (next + 1) as usize }
            } else {
                PullState::Finished
            }
        },
        (_, PullEvent::AuthFailed) => PullState::Failed(PullError::Registry(RegistryError::Auth)),
        (_, PullEvent::TransportFailed) => PullState::Failed(
            PullError::Registry(RegistryError::Transport),
        ),
        (_, PullEvent::DecodeFailed) => PullState::Failed(
            PullError::Registry(RegistryError::Decode),
        ),
        (_, PullEvent::ExtractionFailed) => PullState::Failed(PullError::Extraction),
        _ => s.state,
    }
}

/// The action a step must return: the request that the new state waits for,
/// `ExtractLayer` carrying the decompressed archive, `Done` at the end, and
/// `Abort` with the failure that stopped the session.
pub open spec fn pull_action_ok(s: PullSession, event: PullEvent, action: PullAction) -> bool {
    match (s.state, event) {
        (PullState::FetchingToken, PullEvent::Token(tok)) => action == PullAction::FetchManifest {
            repository: s.repository,
            reference: s.tag,
            token: tok,
        },
        (PullState::FetchingManifest { token, reference, resolved }, PullEvent::List(list)) => {
            if resolved {
                action == PullAction::Abort(PullError::Registry(RegistryError::Decode))
            } else {
                let k = first_target(list.manifests@, 0);
                if k < list.manifests@.len() {
                    action == PullAction::FetchManifest {
                        repository: s.repository,
                        reference: list.manifests@[k].digest,
                        token,
                    }
                } else {
                    action == PullAction::Abort(
                        PullError::Registry(RegistryError::PlatformNotFound),
                    )
                }
            }
        },
        (PullState::FetchingManifest { token, .. }, PullEvent::Doc(m)) => {
            if m.layers@.len() == 0 {
                action == PullAction::Done
            } else {
                action == PullAction::FetchBlob {
                    repository: s.repository,
                    digest: m.layers@[0],
                    token,
                }
            }
        },
        (PullState::FetchingLayers { token, layers, next }, PullEvent::Blob(bytes)) => {
            match gunzip_of(bytes@) {
                Some(tar) => action matches PullAction::ExtractLayer { archive } && archive@ == tar,
                None => action == PullAction::Abort(PullError::Registry(RegistryError::Decode)),
            }
        },
        (PullState::ExtractingLayer { token, layers, next }, PullEvent::Extracted) => {
            if next + 1 < layers@.len() {
                action == PullAction::FetchBlob {
                    repository: s.repository,
                    digest: layers@[next + 1],
                    token,
                }
            } else {
                action == PullAction::Done
            }
        },
        (_, PullEvent::AuthFailed) => action == PullAction::Abort(
            PullError::Registry(RegistryError::Auth),
        ),
        (_, PullEvent::TransportFailed) => action == PullAction::Abort(
            PullError::Registry(RegistryError::Transport),
        ),
        (_, PullEvent::DecodeFailed) => action == PullAction::Abort(
            PullError::Registry(RegistryError::Decode),
        ),
        (_, PullEvent::ExtractionFailed) => action == PullAction::Abort(PullError::Extraction),
        _ => true,
    }
}

impl PullSession {
    /// Open a pull for an image reference: the reference is split into
    /// repository and tag, and the session waits to authenticate.
    pub fn new(image: &str) -> (s: PullSession)
        ensures
            s.repository@ == spec_parse_image(image@).0,
            s.tag@ == spec_parse_image(image@).1,
            s.state == PullState::FetchingToken,
            wf_state(s.state),
    {
        let (repository, tag) = parse_image(image);
        PullSession { repository, tag, state: PullState::FetchingToken }
    }

    /// The first action of a session: request the bearer token, scoped to
    /// pulling this repository.
    pub fn start(&self) -> (action: PullAction)
        requires
            self.state == PullState::FetchingToken,
        ensures
            action == (PullAction::FetchToken { repository: self.repository }),
    {
        PullAction::FetchToken { repository: self.repository.clone() }
    }

    /// Advance the protocol by one step: consume the outcome of the previous
    /// action and return the next one.
    pub fn pull_step(&mut self, event: PullEvent) -> (action: PullAction)
        requires
            wf_state(old(self).state),
            event_fits(old(self).state, event),
        ensures
            final(self).repository == old(self).repository,
            final(self).tag == old(self).tag,
            final(self).state == spec_next_state(*old(self), event),
            wf_state(final(self).state),
            pull_action_ok(*old(self), event, action),
    {
        let mut st = PullState::Finished;
        core::mem::swap(&mut st, &mut self.state);
        let (next_state, action) = match (st, event) {
            (PullState::FetchingToken, PullEvent::Token(tok)) => {
                let action = PullAction::FetchManifest {
                    repository: self.repository.clone(),
                    reference: self.tag.clone(),
                    token: tok.clone(),
                };
                (
                    PullState::FetchingManifest {
                        token: tok,
                        reference: self.tag.clone(),
                        resolved: false,
                    },
                    action,
                )
            },
            (PullState::FetchingManifest { token, reference: _, resolved }, PullEvent::List(
                list,
            )) => {
                if resolved {
                    let e = PullError::Registry(RegistryError::Decode);
                    (PullState::Failed(e), PullAction::Abort(e))
                } else {
                    match select_platform(&list) {
                        Ok(digest) => {
                            let action = PullAction::FetchManifest {
                                repository: self.repository.clone(),
                                reference: digest.clone(),
                                token: token.clone(),
                            };
                            (
                                PullState::FetchingManifest {
                                    token,
                                    reference: digest,
                                    resolved: true,
                                },
                                action,
                            )
                        },
                        Err(e) => {
                            let e = PullError::Registry(e);
                            (PullState::Failed(e), PullAction::Abort(e))
                        },
                    }
                }
            },
            (PullState::FetchingManifest { token, .. }, PullEvent::Doc(m)) => {
                if m.layers.len() == 0 {
                    (PullState::Finished, PullAction::Done)
                } else {
                    let action = PullAction::FetchBlob {
                        repository: self.repository.clone(),
                        digest: m.layers[0].clone(),
                        token: token.clone(),
                    };
                    (PullState::FetchingLayers { token, layers: m.layers, next: 0 }, action)
                }
            },
            (PullState::FetchingLayers { token, layers, next }, PullEvent::Blob(bytes)) => {
                match decode_layer(&bytes) {
                    Ok(tar) => (
                        PullState::ExtractingLayer { token, layers, next },
                        PullAction::ExtractLayer { archive: tar },
                    ),
                    Err(e) => {
                        let e = PullError::Registry(e);
                        (PullState::Failed(e), PullAction::Abort(e))
                    },
                }
            },
            (PullState::ExtractingLayer { token, layers, next }, PullEvent::Extracted) => {
                let n_layers = layers.len();
                if next + 1 < n_layers {
                    let action = PullAction::FetchBlob {
                        repository: self.repository.clone(),
                        digest: layers[next + 1].clone(),
                        token: token.clone(),
                    };
                    (PullState::FetchingLayers { token, layers, next: next + 1 }, action)
                } else {
                    (PullState::Finished, PullAction::Done)
                }
            },
            (_, PullEvent::AuthFailed) => {
                let e = PullError::Registry(RegistryError::Auth);
                (PullState::Failed(e), PullAction::Abort(e))
            },
            (_, PullEvent::TransportFailed) => {
                let e = PullError::Registry(RegistryError::Transport);
                (PullState::Failed(e), PullAction::Abort(e))
            },
            (_, PullEvent::DecodeFailed) => {
                let e = PullError::Registry(RegistryError::Decode);
                (PullState::Failed(e), PullAction::Abort(e))
            },
            (_, PullEvent::ExtractionFailed) => {
                (PullState::Failed(PullError::Extraction), PullAction::Abort(PullError::Extraction))
            },
            _ => {
                proof {
                    assert(false);
                }
                (PullState::Finished, PullAction::Done)
            },
        };
        self.state = next_state;
        action
    }
}

} // verus!
