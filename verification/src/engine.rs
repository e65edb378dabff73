//! The peer-to-peer engine's own logic: the invite and answer codes that
//! carry a session description, the registry of peer connections, and the
//! decisions of the host and client signaling loops.

use vstd::prelude::*;
use vstd::string::*;
use vstd::utf8::*;
use base64::Engine as _;
use crate::domain::AnswerCode;
use crate::signaling::SignalEvent;

verus! {

// ---------------------------------------------------------------------------
// Invite and answer codes
// ---------------------------------------------------------------------------

#[verifier::external_type_specification]
#[verifier::external_body]
pub struct ExDecodeError(base64::DecodeError);

#[verifier::external_type_specification]
#[verifier::external_body]
pub struct ExFromUtf8Error(std::string::FromUtf8Error);

/// What the standard base64 engine (`base64::engine::general_purpose::STANDARD`)
/// makes of `bytes` when it encodes them.
pub uninterp spec fn base64_standard_encode(bytes: Seq<u8>) -> Seq<char>;

/// What the standard base64 engine makes of `text` when it decodes it, or
/// `None` where it refuses it.
pub uninterp spec fn base64_standard_decode(text: Seq<u8>) -> Option<Seq<u8>>;

/// A character of the standard base64 alphabet (`A-Z a-z 0-9 + /`) or its
/// padding `=`.
pub open spec fn is_standard_base64_char(c: char) -> bool {
    ||| 'A' <= c <= 'Z'
    ||| 'a' <= c <= 'z'
    ||| '0' <= c <= '9'
    ||| c == '+'
    ||| c == '/'
    ||| c == '='
}

/// `base64::Engine::encode` on the standard engine. The result is named by
/// `base64_standard_encode`; as the crate's documentation and round-trip tests
/// show, decoding it gives the input back, and it is written in the standard
/// alphabet with `=` padding. The length bound rules out the
/// overflow on which the crate panics.
#[verifier::external_body]
fn base64_encode(bytes: &[u8]) -> (res: String)
    requires
        bytes@.len() <= usize::MAX / 2,
    ensures
        res@ == base64_standard_encode(bytes@),
        base64_standard_decode(encode_utf8(res@)) == Some(bytes@),
        forall|i: int| 0 <= i < res@.len() ==> is_standard_base64_char(#[trigger] res@[i]),
{
    base64::engine::general_purpose::STANDARD.encode(bytes)
}

/// `base64::Engine::decode` on the standard engine: the bytes that the text
/// stands for, or the crate's error where it is not valid base64.
#[verifier::external_body]
fn base64_decode(text: &[u8]) -> (res: Result<Vec<u8>, base64::DecodeError>)
    ensures
        match res {
            Ok(b) => base64_standard_decode(text@) == Some(b@),
            Err(_) => base64_standard_decode(text@) is None,
        },
{
    base64::engine::general_purpose::STANDARD.decode(text)
}

/// `String::from_utf8`: the string whose UTF-8 encoding `bytes` is, or an
/// error where `bytes` is not valid UTF-8.
#[verifier::external_body]
fn string_from_utf8(bytes: Vec<u8>) -> (res: Result<String, std::string::FromUtf8Error>)
    ensures
        match res {
            Ok(s) => valid_utf8(bytes@) && s@ == decode_utf8(bytes@),
            Err(_) => !valid_utf8(bytes@),
        },
{
    String::from_utf8(bytes)
}

/// The code that carries a session description: its JSON text, UTF-8
/// encoded, in standard base64.
pub open spec fn session_code_of(json: Seq<char>) -> Seq<char> {
    base64_standard_encode(encode_utf8(json))
}

/// The session-description JSON that a code carries, or `None` where the
/// code is not base64 of UTF-8 text.
pub open spec fn session_json_of(code: Seq<char>) -> Option<Seq<char>> {
    match base64_standard_decode(encode_utf8(code)) {
        Some(b) => if valid_utf8(b) {
            Some(decode_utf8(b))
        } else {
            None
        },
        None => None,
    }
}

/// Why a code could not be read.
pub enum CodeError {
    /// The code is not valid base64.
    Base64(base64::DecodeError),
    /// The decoded bytes are not UTF-8 text.
    Utf8(std::string::FromUtf8Error),
}

/// Packs a session description (as JSON text) into an invite or answer
/// code; reading the code back gives the same JSON.
pub fn encode_session_code(json: &str) -> (res: String)
    requires
        json.spec_bytes().len() <= usize::MAX / 2,
    ensures
        res@ == session_code_of(json@),
        session_json_of(res@) == Some(json@),
        forall|i: int| 0 <= i < res@.len() ==> is_standard_base64_char(#[trigger] res@[i]),
{
    let bytes = json.as_bytes();
    let code = base64_encode(bytes);
    proof {
        encode_utf8_valid_utf8(json@);
        encode_utf8_decode_utf8(json@);
    }
    code
}

/// Unpacks the session description (JSON text) that an invite or answer code
/// carries.
pub fn decode_session_code(code: &str) -> (res: Result<String, CodeError>)
    ensures
        match res {
            Ok(json) => session_json_of(code@) == Some(json@),
            Err(CodeError::Base64(_)) => base64_standard_decode(encode_utf8(code@)) is None,
            Err(CodeError::Utf8(_)) => base64_standard_decode(encode_utf8(code@)) is Some
                && session_json_of(code@) is None,
        },
{
    let bytes = match base64_decode(code.as_bytes()) {
        Ok(b) => b,
        Err(e) => {
            return Err(CodeError::Base64(e));
        },
    };
    match string_from_utf8(bytes) {
        Ok(s) => Ok(s),
        Err(e) => Err(CodeError::Utf8(e)),
    }
}

// ---------------------------------------------------------------------------
// The registry of peer connections
// ---------------------------------------------------------------------------

/// Whether some entry has key `k`.
pub open spec fn entries_have(entries: Seq<(String, u64)>, k: Seq<char>) -> bool {
    exists|i: int| 0 <= i < entries.len() && (#[trigger] entries[i]).0@ == k
}

/// The map that a list of distinct keyed entries stands for.
pub open spec fn entries_map(entries: Seq<(String, u64)>) -> Map<Seq<char>, u64> {
    Map::new(
        |k: Seq<char>| entries_have(entries, k),
        |k: Seq<char>|
            entries[choose|i: int| 0 <= i < entries.len() && (#[trigger] entries[i]).0@ == k].1,
    )
}

/// The connections of the engine, each under the id of its peer and held by
/// the handle that the caller gave it.
pub struct PeerRegistry {
    entries: Vec<(String, u64)>,
}

impl View for PeerRegistry {
    type V = Map<Seq<char>, u64>;

    closed spec fn view(&self) -> Map<Seq<char>, u64> {
        entries_map(self.entries@)
    }
}

proof fn lemma_entry_value(entries: Seq<(String, u64)>, i: int)
    requires
        0 <= i < entries.len(),
        forall|a: int, b: int|
            0 <= a < b < entries.len() ==> (#[trigger] entries[a]).0@ != (#[trigger] entries[b]).0@,
    ensures
        entries_map(entries).contains_key(entries[i].0@),
        entries_map(entries)[entries[i].0@] == entries[i].1,
{
    let k = entries[i].0@;
    assert(entries_have(entries, k));
    let j = choose|j: int| 0 <= j < entries.len() && (#[trigger] entries[j]).0@ == k;
    if j < i {
        assert(entries[j].0@ != entries[i].0@);
    } else if i < j {
        assert(entries[i].0@ != entries[j].0@);
    }
}

impl PeerRegistry {
    /// No two entries share a peer id.
    #[verifier::type_invariant]
    spec fn wf(&self) -> bool {
        forall|a: int, b: int|
            0 <= a < b < self.entries@.len() ==> (#[trigger] self.entries@[a]).0@ != (
            #[trigger] self.entries@[b]).0@
    }

    /// An empty registry.
    pub fn new() -> (res: Self)
        ensures
            res@ == Map::<Seq<char>, u64>::empty(),
    {
        let res = PeerRegistry { entries: Vec::new() };
        assert(res@ =~= Map::<Seq<char>, u64>::empty());
        res
    }

    fn position(&self, peer_id: &String) -> (res: Option<usize>)
        ensures
            match res {
                Some(i) => i < self.entries@.len() && self.entries@[i as int].0@ == peer_id@,
                None => !entries_have(self.entries@, peer_id@),
            },
    {
        let mut i: usize = 0;
        while i < self.entries.len()
            invariant
                i <= self.entries@.len(),
                forall|j: int| 0 <= j < i ==> (#[trigger] self.entries@[j]).0@ != peer_id@,
            decreases self.entries@.len() - i,
        {
            if self.entries[i].0 == *peer_id {
                return Some(i);
            }
            i = i + 1;
        }
        None
    }

    /// The handle of the connection to `peer_id`, if there is one.
    pub fn get(&self, peer_id: &String) -> (res: Option<u64>)
        ensures
            res == self@.get(peer_id@),
    {
        proof {
            use_type_invariant(self);
        }
        match self.position(peer_id) {
            Some(i) => {
                proof {
                    lemma_entry_value(self.entries@, i as int);
                }
                Some(self.entries[i].1)
            },
            None => None,
        }
    }

    /// Keeps `handle` as the connection to `peer_id`, in place of any earlier
    /// one, whose handle it returns.
    pub fn insert(&mut self, peer_id: String, handle: u64) -> (res: Option<u64>)
        ensures
            final(self)@ == old(self)@.insert(peer_id@, handle),
            res == old(self)@.get(peer_id@),
    {
        proof {
            use_type_invariant(&*self);
        }
        let ghost old_entries = self.entries@;
        let ghost k = peer_id@;
        let pos = self.position(&peer_id);
        let mut entries: Vec<(String, u64)> = Vec::new();
        std::mem::swap(&mut entries, &mut self.entries);
        match pos {
            Some(i) => {
                proof {
                    lemma_entry_value(old_entries, i as int);
                }
                let previous: u64 = entries[i].1;
                entries.set(i, (peer_id, handle));
                proof {
                    assert(entries@ =~= old_entries.update(i as int, entries@[i as int]));
                    assert forall|q: Seq<char>|
                        #![trigger entries_have(entries@, q)]
                        entries_have(entries@, q) == (q == k || entries_have(old_entries, q)) by {
                        if entries_have(old_entries, q) && q != k {
                            let j = choose|j: int| 0 <= j < old_entries.len() && (#[trigger] old_entries[j]).0@ == q;
                            assert(entries@[j].0@ == q);
                        }
                        if q == k {
                            assert(entries@[i as int].0@ == q);
                        }
                    }
                    assert forall|q: Seq<char>| #[trigger] entries_have(entries@, q) implies
                        entries_map(entries@)[q] == map_insert_value(old_entries, k, handle, q) by {
                        let j = choose|j: int| 0 <= j < entries@.len() && (#[trigger] entries@[j]).0@ == q;
                        lemma_entry_value(entries@, j);
                        if q != k {
                            lemma_entry_value(old_entries, j);
                        } else {
                            lemma_entry_value(entries@, i as int);
                        }
                    }
                    assert(entries_map(entries@) =~= old(self)@.insert(k, handle));
                }
                self.entries = entries;
                Some(previous)
            },
            None => {
                entries.push((peer_id, handle));
                proof {
                    let n: int = old_entries.len() as int;
                    assert(entries@ =~= old_entries.push(entries@[n]));
                    assert forall|q: Seq<char>|
                        #![trigger entries_have(entries@, q)]
                        entries_have(entries@, q) == (q == k || entries_have(old_entries, q)) by {
                        if entries_have(old_entries, q) {
                            let j = choose|j: int| 0 <= j < old_entries.len() && (#[trigger] old_entries[j]).0@ == q;
                            assert(entries@[j].0@ == q);
                        }
                        if q == k {
                            assert(entries@[n].0@ == q);
                        }
                    }
                    assert forall|q: Seq<char>| #[trigger] entries_have(entries@, q) implies
                        entries_map(entries@)[q] == map_insert_value(old_entries, k, handle, q) by {
                        let j = choose|j: int| 0 <= j < entries@.len() && (#[trigger] entries@[j]).0@ == q;
                        lemma_entry_value(entries@, j);
                        if q != k {
                            lemma_entry_value(old_entries, j);
                        } else {
                            lemma_entry_value(entries@, n);
                        }
                    }
                    assert(entries_map(entries@) =~= old(self)@.insert(k, handle));
                }
                self.entries = entries;
                None
            },
        }
    }

    /// Drops the connection to `peer_id` and returns its handle, if there was
    /// one.
    pub fn remove(&mut self, peer_id: &String) -> (res: Option<u64>)
        ensures
            final(self)@ == old(self)@.remove(peer_id@),
            res == old(self)@.get(peer_id@),
    {
        proof {
            use_type_invariant(&*self);
        }
        let ghost old_entries = self.entries@;
        let ghost k = peer_id@;
        let pos = self.position(peer_id);
        let mut entries: Vec<(String, u64)> = Vec::new();
        std::mem::swap(&mut entries, &mut self.entries);
        match pos {
            Some(i) => {
                proof {
                    lemma_entry_value(old_entries, i as int);
                }
                let (_, handle) = entries.remove(i);
                proof {
                    assert(entries@ =~= old_entries.remove(i as int));
                    assert forall|q: Seq<char>|
                        #![trigger entries_have(entries@, q)]
                        entries_have(entries@, q) == (q != k && entries_have(old_entries, q)) by {
                        if entries_have(entries@, q) {
                            let j = choose|j: int| 0 <= j < entries@.len() && (#[trigger] entries@[j]).0@ == q;
                            if j < i {
                                assert(old_entries[j].0@ == q);
                            } else {
                                assert(old_entries[j + 1].0@ == q);
                            }
                        }
                        if q != k && entries_have(old_entries, q) {
                            let j = choose|j: int| 0 <= j < old_entries.len() && (#[trigger] old_entries[j]).0@ == q;
                            if j < i {
                                assert(entries@[j].0@ == q);
                            } else {
                                assert(j != i);
                                assert(entries@[j - 1].0@ == q);
                            }
                        }
                    }
                    assert forall|q: Seq<char>| #[trigger] entries_have(entries@, q) implies
                        entries_map(entries@)[q] == entries_map(old_entries)[q] by {
                        let j = choose|j: int| 0 <= j < entries@.len() && (#[trigger] entries@[j]).0@ == q;
                        lemma_entry_value(entries@, j);
                        if j < i {
                            lemma_entry_value(old_entries, j);
                        } else {
                            lemma_entry_value(old_entries, j + 1);
                        }
                    }
                    assert(entries_map(entries@) =~= old(self)@.remove(k));
                }
                self.entries = entries;
                Some(handle)
            },
            None => {
                self.entries = entries;
                assert(self@ =~= old(self)@.remove(k));
                None
            },
        }
    }
}

/// A connection kept under a peer id is found under that id, the others are
/// unchanged, and once dropped it is found no more.
pub proof fn law_registry_lookup(reg: Map<Seq<char>, u64>, peer: Seq<char>, other: Seq<char>, handle: u64)
    requires
        other != peer,
    ensures
        reg.insert(peer, handle).get(peer) == Some(handle),
        reg.insert(peer, handle).get(other) == reg.get(other),
        reg.remove(peer).get(peer) is None,
        reg.remove(peer).get(other) == reg.get(other),
{
}

/// The value that `entries_map(entries).insert(k, v)` has at `q`.
spec fn map_insert_value(
    entries: Seq<(String, u64)>,
    k: Seq<char>,
    v: u64,
    q: Seq<char>,
) -> u64 {
    if q == k {
        v
    } else {
        entries_map(entries)[q]
    }
}


// ---------------------------------------------------------------------------
// The signaling loops
// ---------------------------------------------------------------------------

/// The key under which a client keeps its connection to the host.
pub open spec fn host_key() -> Seq<char> {
    "host"@
}

/// The key under which a manually paired connection is kept.
pub open spec fn manual_key() -> Seq<char> {
    "manual"@
}

/// The key under which a client keeps its connection to the host.
pub fn host_peer_key() -> (res: String)
    ensures
        res@ == host_key(),
{
    String::from_str("host")
}

/// The key under which a manually paired connection is kept.
pub fn manual_peer_key() -> (res: String)
    ensures
        res@ == manual_key(),
{
    String::from_str("manual")
}

/// What the host's signaling loop does with an event.
pub enum HostAction {
    /// Open a connection for this new client and send it an offer.
    AdmitPeer { client_id: String },
    /// Apply the client's answer to its connection.
    ApplyAnswer { handle: u64, answer: String },
    /// Add the client's ICE candidate to its connection.
    ApplyCandidate { handle: u64, candidate: String },
    /// The client left; its connection (if any) was dropped from the registry.
    PeerLeft { client_id: String, handle: Option<u64> },
    /// Report the server's error.
    ReportError { message: String },
    /// Nothing to do.
    Ignore,
}

/// What the host does with `event` while its registry is `reg`.
pub open spec fn host_action(reg: Map<Seq<char>, u64>, event: SignalEvent) -> HostAction {
    match event {
        SignalEvent::PeerJoined { client_id } => HostAction::AdmitPeer { client_id },
        SignalEvent::PlayerAnswer { from_id, answer } => match reg.get(from_id@) {
            Some(h) => HostAction::ApplyAnswer { handle: h, answer },
            None => HostAction::Ignore,
        },
        SignalEvent::IceCandidate { from_id, candidate } => match reg.get(from_id@) {
            Some(h) => HostAction::ApplyCandidate { handle: h, candidate },
            None => HostAction::Ignore,
        },
        SignalEvent::PeerLeft { client_id } => HostAction::PeerLeft {
            handle: reg.get(client_id@),
            client_id,
        },
        SignalEvent::Error { message } => HostAction::ReportError { message },
        _ => HostAction::Ignore,
    }
}

/// The host's registry after `event`: a leaving client's connection is dropped.
pub open spec fn host_registry_after(reg: Map<Seq<char>, u64>, event: SignalEvent) -> Map<
    Seq<char>,
    u64,
> {
    match event {
        SignalEvent::PeerLeft { client_id } => reg.remove(client_id@),
        _ => reg,
    }
}

/// One step of the host's signaling loop: answers and candidates go to the
/// connection of the client that sent them, a leaving client's connection is
/// dropped, events of unknown clients are ignored.
pub fn host_step(registry: &mut PeerRegistry, event: SignalEvent) -> (res: HostAction)
    ensures
        res == host_action(old(registry)@, event),
        final(registry)@ == host_registry_after(old(registry)@, event),
        match event {
            SignalEvent::PlayerAnswer { from_id, answer } => res == match old(registry)@.get(
                from_id@,
            ) {
                Some(h) => HostAction::ApplyAnswer { handle: h, answer },
                None => HostAction::Ignore,
            } && final(registry)@ == old(registry)@,
            SignalEvent::IceCandidate { from_id, candidate } => res == match old(registry)@.get(
                from_id@,
            ) {
                Some(h) => HostAction::ApplyCandidate { handle: h, candidate },
                None => HostAction::Ignore,
            } && final(registry)@ == old(registry)@,
            SignalEvent::PeerLeft { client_id } => {
                &&& res == (HostAction::PeerLeft {
                    handle: old(registry)@.get(client_id@),
                    client_id,
                })
                &&& final(registry)@.get(client_id@) is None
                &&& forall|other: Seq<char>|
                    other != client_id@ ==> #[trigger] final(registry)@.get(other) == old(
                        registry,
                    )@.get(other)
            },
            _ => final(registry)@ == old(registry)@,
        },
{
    match event {
        SignalEvent::PeerJoined { client_id } => HostAction::AdmitPeer { client_id },
        SignalEvent::PlayerAnswer { from_id, answer } => match registry.get(&from_id) {
            Some(h) => HostAction::ApplyAnswer { handle: h, answer },
            None => HostAction::Ignore,
        },
        SignalEvent::IceCandidate { from_id, candidate } => match registry.get(&from_id) {
            Some(h) => HostAction::ApplyCandidate { handle: h, candidate },
            None => HostAction::Ignore,
        },
        SignalEvent::PeerLeft { client_id } => {
            let handle = registry.remove(&client_id);
            HostAction::PeerLeft { client_id, handle }
        },
        SignalEvent::Error { message } => HostAction::ReportError { message },
        _ => HostAction::Ignore,
    }
}

/// What the client's signaling loop does with an event.
pub enum ClientAction {
    /// Open a connection to the host and answer its offer.
    AnswerOffer { from_id: String, offer: String },
    /// Add the host's ICE candidate to the connection to the host.
    ApplyCandidate { handle: u64, candidate: String },
    /// Report the server's error.
    ReportError { message: String },
    /// Nothing to do.
    Ignore,
}

/// What the client does with `event` while its registry is `reg`.
pub open spec fn client_action(reg: Map<Seq<char>, u64>, event: SignalEvent) -> ClientAction {
    match event {
        SignalEvent::RoomOffer { from_id, offer } => ClientAction::AnswerOffer { from_id, offer },
        SignalEvent::IceCandidate { from_id, candidate } => match reg.get(host_key()) {
            Some(h) => ClientAction::ApplyCandidate { handle: h, candidate },
            None => ClientAction::Ignore,
        },
        SignalEvent::Error { message } => ClientAction::ReportError { message },
        _ => ClientAction::Ignore,
    }
}

/// One step of the client's signaling loop: an offer is answered, candidates
/// go to the connection to the host.
pub fn client_step(registry: &PeerRegistry, event: SignalEvent) -> (res: ClientAction)
    ensures
        res == client_action(registry@, event),
{
    match event {
        SignalEvent::RoomOffer { from_id, offer } => ClientAction::AnswerOffer { from_id, offer },
        SignalEvent::IceCandidate { from_id: _, candidate } => {
            let key = host_peer_key();
            match registry.get(&key) {
                Some(h) => ClientAction::ApplyCandidate { handle: h, candidate },
                None => ClientAction::Ignore,
            }
        },
        SignalEvent::Error { message } => ClientAction::ReportError { message },
        _ => ClientAction::Ignore,
    }
}

/// On the client's side, the host's offer is answered as it came, and every
/// ICE candidate goes, unchanged, to the connection kept under the host key,
/// whoever forwarded it.
pub proof fn law_client_routes_to_host(
    reg: Map<Seq<char>, u64>,
    from_id: String,
    text: String,
    handle: u64,
)
    ensures
        client_action(reg, SignalEvent::RoomOffer { from_id, offer: text }) == (
        ClientAction::AnswerOffer { from_id, offer: text }),
        reg.get(host_key()) == Some(handle) ==> client_action(
            reg,
            SignalEvent::IceCandidate { from_id, candidate: text },
        ) == (ClientAction::ApplyCandidate { handle, candidate: text }),
        reg.get(host_key()) is None ==> client_action(
            reg,
            SignalEvent::IceCandidate { from_id, candidate: text },
        ) == ClientAction::Ignore,
{
}

/// Once a client was admitted under its id, its answer goes to its connection.
pub proof fn law_admitted_peer_answer_applied(
    reg: Map<Seq<char>, u64>,
    client_id: String,
    handle: u64,
    from_id: String,
    answer: String,
)
    requires
        from_id@ == client_id@,
    ensures
        host_action(
            reg.insert(client_id@, handle),
            SignalEvent::PlayerAnswer { from_id, answer },
        ) == (HostAction::ApplyAnswer { handle, answer }),
{
}

/// When a client leaves, only its own connection is dropped: every other
/// client keeps the connection it had.
pub proof fn law_leaving_drops_only_that_peer(
    reg: Map<Seq<char>, u64>,
    client_id: String,
    other: Seq<char>,
)
    ensures
        host_registry_after(reg, SignalEvent::PeerLeft { client_id }).get(client_id@) is None,
        other != client_id@ ==> host_registry_after(
            reg,
            SignalEvent::PeerLeft { client_id },
        ).get(other) == reg.get(other),
        host_action(reg, SignalEvent::PeerLeft { client_id }) == (HostAction::PeerLeft {
            handle: reg.get(client_id@),
            client_id,
        }),
{
}

/// Only a leaving client changes the host's registry.
pub proof fn law_only_leaving_changes_registry(reg: Map<Seq<char>, u64>, event: SignalEvent)
    requires
        !(event is PeerLeft),
    ensures
        host_registry_after(reg, event) == reg,
{
}

/// A registered client's ICE candidate goes, unchanged, to that client's
/// connection.
pub proof fn law_registered_peer_candidate_applied(
    reg: Map<Seq<char>, u64>,
    from_id: String,
    candidate: String,
    handle: u64,
)
    requires
        reg.get(from_id@) == Some(handle),
    ensures
        host_action(reg, SignalEvent::IceCandidate { from_id, candidate }) == (
        HostAction::ApplyCandidate { handle, candidate }),
{
}

/// A registered client's answer goes, unchanged, to that client's connection.
pub proof fn law_registered_peer_answer_applied(
    reg: Map<Seq<char>, u64>,
    from_id: String,
    answer: String,
    handle: u64,
)
    requires
        reg.get(from_id@) == Some(handle),
    ensures
        host_action(reg, SignalEvent::PlayerAnswer { from_id, answer }) == (
        HostAction::ApplyAnswer { handle, answer }),
{
}

/// After a client left, nothing it sends reaches a connection any more.
pub proof fn law_left_peer_ignored(
    reg: Map<Seq<char>, u64>,
    client_id: String,
    from_id: String,
    text: String,
)
    requires
        from_id@ == client_id@,
    ensures
        host_action(
            host_registry_after(reg, SignalEvent::PeerLeft { client_id }),
            SignalEvent::PlayerAnswer { from_id, answer: text },
        ) == HostAction::Ignore,
        host_action(
            host_registry_after(reg, SignalEvent::PeerLeft { client_id }),
            SignalEvent::IceCandidate { from_id, candidate: text },
        ) == HostAction::Ignore,
{
}

/// Events of one client never reach the connection of another.
pub proof fn law_peers_isolated(
    reg: Map<Seq<char>, u64>,
    client_id: String,
    handle: u64,
    from_id: String,
    answer: String,
)
    requires
        from_id@ != client_id@,
    ensures
        host_action(
            reg.insert(client_id@, handle),
            SignalEvent::PlayerAnswer { from_id, answer },
        ) == host_action(reg, SignalEvent::PlayerAnswer { from_id, answer }),
{
}

// ---------------------------------------------------------------------------
// Accepting an answer
// ---------------------------------------------------------------------------

/// The answer code returned when the signaling server carries the answer.
pub open spec fn dynamic_code_text() -> Seq<char> {
    "dynamic_signaling"@
}

/// The answer code returned when the signaling server carries the answer
/// itself, so that the host has nothing to apply.
pub fn dynamic_answer_code() -> (res: AnswerCode)
    ensures
        res.0@ == dynamic_code_text(),
{
    AnswerCode(String::from_str("dynamic_signaling"))
}

/// What accepting an answer comes to.
pub enum AnswerPlan {
    /// The signaling server already carried the answer: nothing to do.
    AlreadyConnected,
    /// Apply this session description to the manually paired connection.
    Apply { handle: u64, answer_json: String },
}

/// Why an answer cannot be accepted.
pub enum EngineError {
    /// No connection was prepared for manual pairing.
    NoManualPeer,
    /// The answer code cannot be read.
    Code(CodeError),
}

/// The outcome of accepting an answer, as a value.
pub enum AnswerOutcome {
    AlreadyConnected,
    Apply { handle: u64, answer_json: Seq<char> },
    NoManualPeer,
    BadBase64,
    BadUtf8,
}

/// What accepting `code` comes to while the registry is `reg`.
pub open spec fn answer_outcome(reg: Map<Seq<char>, u64>, code: Seq<char>) -> AnswerOutcome {
    if code == dynamic_code_text() {
        AnswerOutcome::AlreadyConnected
    } else if !reg.contains_key(manual_key()) {
        AnswerOutcome::NoManualPeer
    } else {
        match base64_standard_decode(encode_utf8(code)) {
            None => AnswerOutcome::BadBase64,
            Some(b) => if valid_utf8(b) {
                AnswerOutcome::Apply { handle: reg[manual_key()], answer_json: decode_utf8(b) }
            } else {
                AnswerOutcome::BadUtf8
            },
        }
    }
}

/// The outcome that a result of `accept_answer_plan` stands for.
pub open spec fn outcome_of(res: Result<AnswerPlan, EngineError>) -> AnswerOutcome {
    match res {
        Ok(AnswerPlan::AlreadyConnected) => AnswerOutcome::AlreadyConnected,
        Ok(AnswerPlan::Apply { handle, answer_json }) => AnswerOutcome::Apply {
            handle,
            answer_json: answer_json@,
        },
        Err(EngineError::NoManualPeer) => AnswerOutcome::NoManualPeer,
        Err(EngineError::Code(CodeError::Base64(_))) => AnswerOutcome::BadBase64,
        Err(EngineError::Code(CodeError::Utf8(_))) => AnswerOutcome::BadUtf8,
    }
}

/// How the host accepts an answer code: the dynamic code needs nothing, any
/// other code is unpacked for the manually paired connection.
pub fn accept_answer_plan(registry: &PeerRegistry, answer: &AnswerCode) -> (res: Result<
    AnswerPlan,
    EngineError,
>)
    ensures
        outcome_of(res) == answer_outcome(registry@, answer.0@),
{
    let dynamic = dynamic_answer_code();
    if answer.0 == dynamic.0 {
        return Ok(AnswerPlan::AlreadyConnected);
    }
    let key = manual_peer_key();
    let handle: u64 = match registry.get(&key) {
        Some(h) => h,
        None => {
            return Err(EngineError::NoManualPeer);
        },
    };
    match decode_session_code(answer.0.as_str()) {
        Ok(answer_json) => Ok(AnswerPlan::Apply { handle, answer_json }),
        Err(e) => Err(EngineError::Code(e)),
    }
}

/// The dynamic answer code is accepted without any work, whatever the host
/// holds.
pub proof fn law_dynamic_answer_accepted(reg: Map<Seq<char>, u64>)
    ensures
        answer_outcome(reg, dynamic_code_text()) == AnswerOutcome::AlreadyConnected,
{
}

/// A code that carries a session description in the standard base64
/// alphabet is applied, unchanged, to the manually paired connection.
pub proof fn law_manual_answer_applied(
    reg: Map<Seq<char>, u64>,
    handle: u64,
    code: Seq<char>,
    json: Seq<char>,
)
    requires
        session_json_of(code) == Some(json),
        forall|i: int| 0 <= i < code.len() ==> is_standard_base64_char(#[trigger] code[i]),
    ensures
        answer_outcome(reg.insert(manual_key(), handle), code) == (AnswerOutcome::Apply {
            handle,
            answer_json: json,
        }),
{
    reveal_strlit("dynamic_signaling");
    if code == dynamic_code_text() {
        assert(!is_standard_base64_char(code[7]));
    }
}

} // verus!
