//! Clipboard sharing: splitting clipboard contents into protocol chunks and
//! reassembling them on the receiving side.
use vstd::prelude::*;
use vstd::utf8::{encode_utf8, decode_utf8, valid_utf8};
use vstd::string::StringSliceAdditionalSpecFns;
use crate::proto::{
    CLIPBOARD_MIME_TEXT, MAX_EVENT_SIZE, ClipboardData, ClipboardDataView, ProtoEvent,
    ProtoEventView, max_clipboard_payload_size, spec_max_clipboard_payload_size, spec_encode,
};
use crate::text::{string_from_utf8, string_into_bytes};
use crate::wire::{put_bytes, copy_range};

verus! {

/// Largest clipboard transfer accepted, in bytes of payload room.
pub const MAX_CLIPBOARD_TRANSFER_SIZE: usize = 16777216;

/// Why clipboard data could not be sent or received.
#[derive(Clone, Copy, Debug, PartialEq, Eq, Structural)]
pub enum ClipboardError {
    /// The payload of a plain-text transfer is not valid UTF-8.
    Utf8,
    /// A chunk sequence is incomplete or a chunk is out of range.
    Incomplete,
    /// The data, or a chunk's claimed transfer, is too large.
    TooLarge,
}

/// Clipboard contents shared between peers: a MIME type and its bytes.
#[derive(Clone, Debug, Eq, PartialEq)]
pub struct SharedClipboardData {
    pub mime: String,
    pub payload: Vec<u8>,
}

/// Mathematical value of [`SharedClipboardData`].
pub struct SharedClipboardDataView {
    pub mime: Seq<char>,
    pub payload: Seq<u8>,
}

impl View for SharedClipboardData {
    type V = SharedClipboardDataView;

    open spec fn view(&self) -> SharedClipboardDataView {
        SharedClipboardDataView { mime: self.mime@, payload: self.payload@ }
    }
}

impl SharedClipboardData {
    /// Plain text contents: the text MIME type and the UTF-8 bytes of `text`.
    pub fn plain_text(text: String) -> (r: SharedClipboardData)
        ensures
            r@.mime == CLIPBOARD_MIME_TEXT@,
            r@.payload == encode_utf8(text@),
    {
        SharedClipboardData { mime: CLIPBOARD_MIME_TEXT.to_owned(), payload: string_into_bytes(text) }
    }

    /// The text of plain-text contents: `Ok(None)` for any other MIME type,
    /// `Err(Utf8)` when the payload is not valid UTF-8.
    pub fn as_text(self) -> (r: Result<Option<String>, ClipboardError>)
        ensures
            self@.mime != CLIPBOARD_MIME_TEXT@ ==> r == Ok::<Option<String>, ClipboardError>(None),
            self@.mime == CLIPBOARD_MIME_TEXT@ && !valid_utf8(self@.payload) ==> r == Err::<
                Option<String>,
                ClipboardError,
            >(ClipboardError::Utf8),
            self@.mime == CLIPBOARD_MIME_TEXT@ && valid_utf8(self@.payload) ==> (r matches Ok(
                Some(s),
            ) && s@ == decode_utf8(self@.payload)),
    {
        let text_mime = CLIPBOARD_MIME_TEXT.to_owned();
        if self.mime == text_mime {
            match string_from_utf8(self.payload) {
                Ok(s) => Ok(Some(s)),
                Err(_) => Err(ClipboardError::Utf8),
            }
        } else {
            Ok(None)
        }
    }
}

/// The byte length of the UTF-8 encoding of a MIME type.
pub open spec fn mime_len(mime: Seq<char>) -> nat {
    encode_utf8(mime).len()
}

/// Payload room per chunk next to the given MIME type.
pub open spec fn payload_room(mime: Seq<char>) -> nat {
    spec_max_clipboard_payload_size(mime_len(mime))
}

/// Why a received chunk is rejected before it touches the receiver, if it is.
pub open spec fn chunk_shape_error(c: ClipboardDataView) -> Option<ClipboardError> {
    if c.chunk_count == 0 || c.chunk_index >= c.chunk_count {
        Some(ClipboardError::Incomplete)
    } else if payload_room(c.mime) == 0 || c.payload.len() > payload_room(c.mime) || c.chunk_count
        * payload_room(c.mime) > MAX_CLIPBOARD_TRANSFER_SIZE {
        Some(ClipboardError::TooLarge)
    } else {
        None
    }
}

proof fn lemma_room_product(count: u16, room: usize)
    by (nonlinear_arith)
    requires
        room <= MAX_EVENT_SIZE,
    ensures
        count * room <= 65535 * 1200,
{
}

fn text_len(s: &String) -> (r: usize)
    ensures
        r == mime_len(s@),
{
    s.as_str().as_bytes().len()
}

/// Checks a received chunk's shape: `Incomplete` when its index is not
/// below a nonzero chunk count, `TooLarge` when its MIME type leaves no
/// payload room, its payload exceeds that room, or its chunk count claims
/// a transfer beyond `MAX_CLIPBOARD_TRANSFER_SIZE`.
pub fn validate_chunk_shape(chunk: &ClipboardData) -> (r: Result<(), ClipboardError>)
    ensures
        r is Ok <==> chunk_shape_error(chunk@) is None,
        r matches Err(e) ==> chunk_shape_error(chunk@) == Some(e),
{
    if chunk.chunk_count == 0 || chunk.chunk_index >= chunk.chunk_count {
        return Err(ClipboardError::Incomplete);
    }
    let max_payload = max_clipboard_payload_size(chunk.mime.as_str());
    proof {
        assert(max_payload == payload_room(chunk.mime@));
        lemma_room_product(chunk.chunk_count, max_payload);
    }
    if max_payload == 0 || chunk.payload.len() > max_payload || chunk.chunk_count as usize
        * max_payload > MAX_CLIPBOARD_TRANSFER_SIZE {
        return Err(ClipboardError::TooLarge);
    }
    Ok(())
}

/// A transfer being received: which chunks have arrived so far.
pub struct TransferView {
    pub transfer_id: u32,
    pub chunk_count: u16,
    pub mime: Seq<char>,
    pub chunks: Seq<Option<Seq<u8>>>,
}

/// A transfer whose chunks have all still to arrive.
pub open spec fn fresh_transfer(transfer_id: u32, chunk_count: u16, mime: Seq<char>) -> TransferView {
    TransferView {
        transfer_id,
        chunk_count,
        mime,
        chunks: Seq::new(chunk_count as nat, |i: int| None::<Seq<u8>>),
    }
}

/// Every chunk has arrived.
pub open spec fn all_received(chunks: Seq<Option<Seq<u8>>>) -> bool {
    forall|i: int| 0 <= i < chunks.len() ==> (#[trigger] chunks[i]) is Some
}

/// The received chunks joined in index order (a missing chunk adds nothing).
pub open spec fn joined(chunks: Seq<Option<Seq<u8>>>) -> Seq<u8>
    decreases chunks.len(),
{
    if chunks.len() == 0 {
        Seq::empty()
    } else {
        joined(chunks.drop_last()) + match chunks.last() {
            Some(c) => c,
            None => Seq::empty(),
        }
    }
}

/// A chunk continues the transfer in progress: same transfer id, MIME type
/// and chunk count.
pub open spec fn continues(state: Option<TransferView>, c: ClipboardDataView) -> bool {
    state matches Some(t) && t.transfer_id == c.transfer_id && t.mime == c.mime && t.chunk_count
        == c.chunk_count
}

/// What the receiver does with one chunk: the next receiver state and the
/// result. A rejected chunk leaves the state alone. Otherwise the chunk
/// either continues the transfer in progress or starts a new one
/// (discarding the old), is stored at its index, and when that completes
/// the transfer the joined data is returned and the receiver is emptied.
pub open spec fn receive(state: Option<TransferView>, c: ClipboardDataView) -> (
    Option<TransferView>,
    Result<Option<SharedClipboardDataView>, ClipboardError>,
) {
    match chunk_shape_error(c) {
        Some(e) => (state, Err(e)),
        None => {
            let base = if continues(state, c) {
                state->Some_0
            } else {
                fresh_transfer(c.transfer_id, c.chunk_count, c.mime)
            };
            let chunks = base.chunks.update(c.chunk_index as int, Some(c.payload));
            if all_received(chunks) {
                (None, Ok(Some(SharedClipboardDataView { mime: base.mime, payload: joined(chunks) })))
            } else {
                (Some(TransferView { chunks, ..base }), Ok(None))
            }
        },
    }
}

/// View of a received chunk slot.
pub open spec fn slot_view(o: Option<Vec<u8>>) -> Option<Seq<u8>> {
    match o {
        Some(v) => Some(v@),
        None => None,
    }
}

/// An incoming transfer: its identity and one slot per chunk.
struct IncomingClipboardTransfer {
    transfer_id: u32,
    chunk_count: u16,
    mime: String,
    chunks: Vec<Option<Vec<u8>>>,
}

impl IncomingClipboardTransfer {
    #[verifier::type_invariant]
    spec fn slots_match_count(self) -> bool {
        self.chunks@.len() == self.chunk_count as nat
    }

    closed spec fn view(self) -> TransferView {
        TransferView {
            transfer_id: self.transfer_id,
            chunk_count: self.chunk_count,
            mime: self.mime@,
            chunks: self.chunks@.map_values(|o: Option<Vec<u8>>| slot_view(o)),
        }
    }

    /// A transfer expecting `chunk_count` chunks, refused when there are
    /// none (`Incomplete`) or when they could exceed
    /// `MAX_CLIPBOARD_TRANSFER_SIZE` (`TooLarge`).
    fn new(transfer_id: u32, chunk_count: u16, mime: String) -> (r: Result<
        IncomingClipboardTransfer,
        ClipboardError,
    >)
        ensures
            chunk_count == 0 ==> r == Err::<IncomingClipboardTransfer, ClipboardError>(
                ClipboardError::Incomplete,
            ),
            chunk_count != 0 && (payload_room(mime@) == 0 || chunk_count * payload_room(mime@)
                > MAX_CLIPBOARD_TRANSFER_SIZE) ==> r == Err::<
                IncomingClipboardTransfer,
                ClipboardError,
            >(ClipboardError::TooLarge),
            chunk_count != 0 && payload_room(mime@) != 0 && chunk_count * payload_room(mime@)
                <= MAX_CLIPBOARD_TRANSFER_SIZE ==> (r matches Ok(t) && t.view() == fresh_transfer(
                transfer_id,
                chunk_count,
                mime@,
            )),
    {
        if chunk_count == 0 {
            return Err(ClipboardError::Incomplete);
        }
        let max_payload = max_clipboard_payload_size(mime.as_str());
        proof {
            lemma_room_product(chunk_count, max_payload);
        }
        if max_payload == 0 || chunk_count as usize * max_payload > MAX_CLIPBOARD_TRANSFER_SIZE {
            return Err(ClipboardError::TooLarge);
        }
        let mut chunks: Vec<Option<Vec<u8>>> = Vec::new();
        let mut i: u16 = 0;
        while i < chunk_count
            invariant
                i <= chunk_count,
                chunks@.len() == i as nat,
                forall|j: int| 0 <= j < i ==> chunks@[j] is None,
            decreases chunk_count - i,
        {
            chunks.push(None);
            i = i + 1;
        }
        let t = IncomingClipboardTransfer { transfer_id, chunk_count, mime, chunks };
        assert(t.view().chunks =~= fresh_transfer(transfer_id, chunk_count, t.mime@).chunks);
        Ok(t)
    }

    /// Stores a chunk's payload in its slot; `Incomplete` when the index
    /// has no slot.
    fn push(&mut self, chunk: ClipboardData) -> (r: Result<(), ClipboardError>)
        ensures
            chunk.chunk_index < old(self).view().chunks.len() ==> r is Ok && final(self).view()
                == (TransferView {
                chunks: old(self).view().chunks.update(chunk.chunk_index as int, Some(chunk@.payload)),
                ..old(self).view()
            }),
            chunk.chunk_index >= old(self).view().chunks.len() ==> r == Err::<(), ClipboardError>(
                ClipboardError::Incomplete,
            ) && final(self).view() == old(self).view(),
    {
        proof {
            use_type_invariant(&*self);
        }
        let idx = chunk.chunk_index as usize;
        if idx >= self.chunks.len() {
            return Err(ClipboardError::Incomplete);
        }
        let ghost before = self.view();
        let ghost payload = chunk.payload@;
        self.chunks[idx] = Some(chunk.payload);
        proof {
            assert(self.view().chunks =~= before.chunks.update(idx as int, Some(payload)));
        }
        Ok(())
    }

    /// Whether every chunk has arrived.
    fn is_complete(&self) -> (r: bool)
        ensures
            r == all_received(self.view().chunks),
    {
        let n = self.chunks.len();
        let mut i: usize = 0;
        while i < n
            invariant
                n == self.chunks@.len(),
                i <= n,
                forall|j: int| 0 <= j < i ==> (#[trigger] self.chunks@[j]) is Some,
            decreases n - i,
        {
            if self.chunks[i].is_none() {
                assert(self.view().chunks[i as int] is None);
                return false;
            }
            i = i + 1;
        }
        proof {
            assert forall|j: int| 0 <= j < self.view().chunks.len() implies (
            #[trigger] self.view().chunks[j]) is Some by {
                assert(self.chunks@[j] is Some);
            }
        }
        true
    }

    /// The transfer's data: its MIME type and the chunks joined in order;
    /// `Incomplete` when a chunk is missing.
    fn finish(self) -> (r: Result<SharedClipboardData, ClipboardError>)
        ensures
            all_received(self.view().chunks) ==> (r matches Ok(d) && d@ == (SharedClipboardDataView {
                mime: self.view().mime,
                payload: joined(self.view().chunks),
            })),
            !all_received(self.view().chunks) ==> r == Err::<SharedClipboardData, ClipboardError>(
                ClipboardError::Incomplete,
            ),
    {
        let ghost v = self.view();
        let n = self.chunks.len();
        let mut payload: Vec<u8> = Vec::new();
        let mut i: usize = 0;
        while i < n
            invariant
                n == self.chunks@.len(),
                v == self.view(),
                i <= n,
                forall|j: int| 0 <= j < i ==> (#[trigger] v.chunks[j]) is Some,
                payload@ == joined(v.chunks.take(i as int)),
            decreases n - i,
        {
            match &self.chunks[i] {
                Some(c) => {
                    put_bytes(&mut payload, c.as_slice());
                    proof {
                        assert(v.chunks.take(i + 1).drop_last() =~= v.chunks.take(i as int));
                        assert(v.chunks[i as int] == Some(c@));
                    }
                },
                None => {
                    assert(v.chunks[i as int] is None);
                    return Err(ClipboardError::Incomplete);
                },
            }
            i = i + 1;
        }
        assert(v.chunks.take(n as int) =~= v.chunks);
        Ok(SharedClipboardData { mime: self.mime, payload })
    }
}

/// Reassembles chunked clipboard transfers, one transfer at a time.
pub struct ClipboardTransferReceiver {
    current: Option<IncomingClipboardTransfer>,
}

impl View for ClipboardTransferReceiver {
    type V = Option<TransferView>;

    closed spec fn view(&self) -> Option<TransferView> {
        match self.current {
            Some(t) => Some(t.view()),
            None => None,
        }
    }
}

/// View of a receiver result.
pub open spec fn received_view(r: Result<Option<SharedClipboardData>, ClipboardError>) -> Result<
    Option<SharedClipboardDataView>,
    ClipboardError,
> {
    match r {
        Ok(Some(d)) => Ok(Some(d@)),
        Ok(None) => Ok(None),
        Err(e) => Err(e),
    }
}

impl ClipboardTransferReceiver {
    /// A receiver with no transfer in progress.
    pub fn new() -> (r: ClipboardTransferReceiver)
        ensures
            r@ == None::<TransferView>,
    {
        ClipboardTransferReceiver { current: None }
    }

    /// Takes in one received chunk, as [`receive`] says.
    pub fn push(&mut self, chunk: ClipboardData) -> (r: Result<
        Option<SharedClipboardData>,
        ClipboardError,
    >)
        ensures
            (final(self)@, received_view(r)) == receive(old(self)@, chunk@),
    {
        match validate_chunk_shape(&chunk) {
            Ok(()) => {},
            Err(e) => {
                return Err(e);
            },
        }
        let ghost old_state = self@;
        let current = self.current.take();
        let reset = match &current {
            Some(t) => !(t.transfer_id == chunk.transfer_id && t.mime == chunk.mime && t.chunk_count
                == chunk.chunk_count),
            None => true,
        };
        let mut transfer = if reset {
            match IncomingClipboardTransfer::new(
                chunk.transfer_id,
                chunk.chunk_count,
                chunk.mime.clone(),
            ) {
                Ok(t) => t,
                Err(e) => {
                    return Err(e);
                },
            }
        } else {
            current.unwrap()
        };
        proof {
            use_type_invariant(&transfer);
            assert(continues(old_state, chunk@) == !reset);
        }
        let ghost base = transfer.view();
        match transfer.push(chunk) {
            Ok(()) => {},
            Err(e) => {
                return Err(e);
            },
        }
        if transfer.is_complete() {
            let data = transfer.finish();
            match data {
                Ok(d) => Ok(Some(d)),
                Err(e) => Err(e),
            }
        } else {
            self.current = Some(transfer);
            Ok(None)
        }
    }
}

impl Default for ClipboardTransferReceiver {
    fn default() -> (r: ClipboardTransferReceiver)
        ensures
            r@ == None::<TransferView>,
    {
        ClipboardTransferReceiver::new()
    }
}


/// Source of clipboard transfer ids: successive ids, wrapping around after
/// `u32::MAX`, starting from 1.
pub struct TransferIds {
    next: u32,
}

impl TransferIds {
    /// The id the next transfer gets.
    pub closed spec fn upcoming(&self) -> u32 {
        self.next
    }

    /// A source whose first id is 1.
    pub fn new() -> (r: TransferIds)
        ensures
            r.upcoming() == 1,
    {
        TransferIds { next: 1 }
    }

    /// Hands out the upcoming id and moves on to its successor (wrapping).
    pub fn next_transfer_id(&mut self) -> (id: u32)
        ensures
            id == old(self).upcoming(),
            final(self).upcoming() == id.wrapping_add(1),
    {
        let id = self.next;
        self.next = self.next.wrapping_add(1);
        id
    }
}

/// Two transfers in a row get different ids.
pub proof fn lemma_consecutive_ids_differ(id: u32)
    ensures
        id.wrapping_add(1) != id,
{
}

/// Number of chunks a payload of `len` bytes is split into at `room` bytes
/// per chunk: enough to hold it, and at least one.
pub open spec fn chunk_count_for(len: nat, room: nat) -> nat {
    if len == 0 {
        1
    } else {
        ((len - 1) as nat / room + 1) as nat
    }
}

/// Chunk `i` of a transfer: the payload bytes `[i * room, min((i + 1) * room, len))`.
pub open spec fn chunk_of(
    data: SharedClipboardDataView,
    transfer_id: u32,
    room: nat,
    count: nat,
    i: int,
) -> ClipboardDataView {
    let len = data.payload.len() as int;
    let end = if (i + 1) * room < len {
        (i + 1) * room
    } else {
        len
    };
    ClipboardDataView {
        transfer_id,
        chunk_index: i as u16,
        chunk_count: count as u16,
        mime: data.mime,
        payload: data.payload.subrange(i * room, end),
    }
}

/// Data that the encoder refuses: no payload room next to its MIME type,
/// a MIME type too long for its length field, a payload over
/// `MAX_CLIPBOARD_TRANSFER_SIZE`, or more chunks than a chunk index holds.
pub open spec fn too_large_to_send(data: SharedClipboardDataView) -> bool {
    let room = payload_room(data.mime);
    room == 0 || mime_len(data.mime) > u16::MAX || data.payload.len() > MAX_CLIPBOARD_TRANSFER_SIZE
        || chunk_count_for(data.payload.len(), room) > u16::MAX
}

proof fn lemma_chunk_bounds(len: nat, room: nat, i: int)
    requires
        room > 0,
        0 <= i < chunk_count_for(len, room),
    ensures
        len == 0 ==> i == 0,
        len > 0 ==> i * room < len,
        len <= chunk_count_for(len, room) * room,
        (chunk_count_for(len, room) - 1) * room <= len,
        i * room <= len,
{
    if len > 0 {
        let q = ((len - 1) as nat / room) as int;
        assert(q * room <= len - 1 && len - 1 < (q + 1) * room) by (nonlinear_arith)
            requires
                q == (len - 1) as int / room as int,
                room > 0,
                len > 0,
        ;
        assert(i * room <= q * room) by (nonlinear_arith)
            requires
                i <= q,
                room > 0,
        ;
    }
}

/// Splits clipboard data into protocol events under a new transfer id
/// (taken from `ids` even when the data is refused). Refuses with
/// `TooLarge` exactly the data of [`too_large_to_send`]; otherwise chunk
/// `i` carries the payload bytes `[i * room, (i + 1) * room)` clipped to
/// the payload, where `room` is the payload room next to the MIME type.
pub fn encode_clipboard_events(ids: &mut TransferIds, data: SharedClipboardData) -> (r: Result<
    Vec<ProtoEvent>,
    ClipboardError,
>)
    ensures
        final(ids).upcoming() == old(ids).upcoming().wrapping_add(1),
        too_large_to_send(data@) <==> r is Err,
        r matches Err(e) ==> e == ClipboardError::TooLarge,
        r matches Ok(events) ==> {
            let room = payload_room(data@.mime);
            let count = chunk_count_for(data@.payload.len(), room);
            &&& events@.len() == count
            &&& forall|i: int|
                0 <= i < count ==> (#[trigger] events@[i])@ == ProtoEventView::Clipboard(
                    chunk_of(data@, old(ids).upcoming(), room, count, i),
                )
            &&& forall|i: int|
                0 <= i < count ==> (#[trigger] events@[i])@.well_formed() && spec_encode(
                    events@[i]@,
                ).len() <= MAX_EVENT_SIZE
        },
{
    let transfer_id = ids.next_transfer_id();
    let max_payload = max_clipboard_payload_size(data.mime.as_str());
    let mime_bytes = text_len(&data.mime);
    if max_payload == 0 || mime_bytes > 65535 {
        return Err(ClipboardError::TooLarge);
    }
    let len = data.payload.len();
    if len > MAX_CLIPBOARD_TRANSFER_SIZE {
        return Err(ClipboardError::TooLarge);
    }
    let chunk_count = if len == 0 {
        1
    } else {
        (len - 1) / max_payload + 1
    };
    if chunk_count > 65535 {
        return Err(ClipboardError::TooLarge);
    }
    let ghost room = max_payload as nat;
    let ghost count = chunk_count as nat;
    assert(count == chunk_count_for(len as nat, room));
    let mut events: Vec<ProtoEvent> = Vec::new();
    let mut index: usize = 0;
    while index < chunk_count
        invariant
            index <= chunk_count,
            chunk_count <= 65535,
            max_payload == room,
            max_payload > 0,
            max_payload <= MAX_EVENT_SIZE,
            count == chunk_count,
            count == chunk_count_for(data@.payload.len(), room),
            len == data@.payload.len(),
            events@.len() == index,
            forall|i: int|
                0 <= i < index ==> (#[trigger] events@[i])@ == ProtoEventView::Clipboard(
                    chunk_of(data@, transfer_id, room, count, i),
                ),
        decreases chunk_count - index,
    {
        proof {
            lemma_chunk_bounds(len as nat, room, index as int);
            lemma_room_product(index as u16, max_payload);
            lemma_room_product((index + 1) as u16, max_payload);
        }
        let start = index * max_payload;
        let next = (index + 1) * max_payload;
        let end = if next < len {
            next
        } else {
            len
        };
        assert(start as int == index as int * room);
        assert(start <= len);
        assert(next == start + max_payload) by (nonlinear_arith)
            requires
                start == index * max_payload,
                next == (index + 1) * max_payload,
        ;
        let payload = copy_range(data.payload.as_slice(), start, end);
        let chunk = ClipboardData {
            transfer_id,
            chunk_index: index as u16,
            chunk_count: chunk_count as u16,
            mime: data.mime.clone(),
            payload,
        };
        events.push(ProtoEvent::Clipboard(chunk));
        index = index + 1;
    }
    proof {
        assert forall|i: int| 0 <= i < count implies (#[trigger] events@[i])@.well_formed()
            && spec_encode(events@[i]@).len() <= MAX_EVENT_SIZE by {
            lemma_chunks_fit_datagram(data@, transfer_id, i);
        }
    }
    Ok(events)
}


/// Payload room, chunk count and fit of a transfer the encoder accepts.
pub open spec fn sendable(data: SharedClipboardDataView) -> bool {
    !too_large_to_send(data)
}

proof fn lemma_chunk_facts(data: SharedClipboardDataView, transfer_id: u32, i: int)
    requires
        sendable(data),
        0 <= i < chunk_count_for(data.payload.len(), payload_room(data.mime)),
    ensures
        ({
            let room = payload_room(data.mime);
            let count = chunk_count_for(data.payload.len(), room);
            let c = chunk_of(data, transfer_id, room, count, i);
            let len = data.payload.len() as int;
            &&& c.chunk_index == i
            &&& c.chunk_count == count
            &&& c.payload.len() <= room
            &&& i * room <= len
            &&& c.payload == data.payload.subrange(
                i * room,
                if (i + 1) * room < len {
                    (i + 1) * room
                } else {
                    len
                },
            )
        }),
{
    let room = payload_room(data.mime);
    let len = data.payload.len();
    lemma_chunk_bounds(len, room, i);
    assert((i + 1) * room == i * room + room) by (nonlinear_arith);
}

/// Encoding a chunk of sendable data fits one datagram, and the event is
/// well formed.
pub proof fn lemma_chunks_fit_datagram(data: SharedClipboardDataView, transfer_id: u32, i: int)
    requires
        sendable(data),
        0 <= i < chunk_count_for(data.payload.len(), payload_room(data.mime)),
    ensures
        ({
            let room = payload_room(data.mime);
            let count = chunk_count_for(data.payload.len(), room);
            let e = ProtoEventView::Clipboard(chunk_of(data, transfer_id, room, count, i));
            &&& e.well_formed()
            &&& spec_encode(e).len() <= MAX_EVENT_SIZE
        }),
{
    lemma_chunk_facts(data, transfer_id, i);
}

/// Slots `0..j` of a transfer, all filled with their chunk's payload.
pub open spec fn filled_slots(data: SharedClipboardDataView, transfer_id: u32, j: int) -> Seq<
    Option<Seq<u8>>,
> {
    let room = payload_room(data.mime);
    let count = chunk_count_for(data.payload.len(), room);
    Seq::new(j as nat, |i: int| Some(chunk_of(data, transfer_id, room, count, i).payload))
}

proof fn lemma_joined_prefix(data: SharedClipboardDataView, transfer_id: u32, j: int)
    requires
        sendable(data),
        0 <= j <= chunk_count_for(data.payload.len(), payload_room(data.mime)),
    ensures
        ({
            let room = payload_room(data.mime);
            let len = data.payload.len() as int;
            joined(filled_slots(data, transfer_id, j)) == data.payload.subrange(
                0,
                if j * room < len {
                    j * room
                } else {
                    len
                },
            )
        }),
    decreases j,
{
    let room = payload_room(data.mime);
    let count = chunk_count_for(data.payload.len(), room);
    let len = data.payload.len() as int;
    if j == 0 {
        assert(filled_slots(data, transfer_id, 0).len() == 0);
        assert(0 * room == 0);
        assert(joined(filled_slots(data, transfer_id, 0)) == Seq::<u8>::empty());
        assert(data.payload.subrange(0, 0) =~= Seq::<u8>::empty());
    } else {
        lemma_joined_prefix(data, transfer_id, j - 1);
        lemma_chunk_facts(data, transfer_id, j - 1);
        assert(filled_slots(data, transfer_id, j).drop_last() =~= filled_slots(
            data,
            transfer_id,
            j - 1,
        ));
        assert(j * room == (j - 1) * room + room) by (nonlinear_arith);
        let prev_end = if (j - 1) * room < len {
            (j - 1) * room
        } else {
            len
        };
        assert(prev_end == (j - 1) * room);
        let end = if j * room < len {
            j * room
        } else {
            len
        };
        let slots = filled_slots(data, transfer_id, j);
        assert(slots.last() == Some(chunk_of(data, transfer_id, room, count, j - 1).payload));
        assert(chunk_of(data, transfer_id, room, count, j - 1).payload == data.payload.subrange(
            prev_end,
            end,
        ));
        assert(joined(slots) == joined(slots.drop_last()) + data.payload.subrange(prev_end, end));
        assert(data.payload.subrange(0, prev_end) + data.payload.subrange(prev_end, end)
            =~= data.payload.subrange(0, end));
        assert(joined(slots) == data.payload.subrange(0, end));
    }
}

/// Slots of a transfer after the chunks `order[0..k]` have arrived.
pub open spec fn slots_after(
    data: SharedClipboardDataView,
    transfer_id: u32,
    order: Seq<int>,
    k: int,
) -> Seq<Option<Seq<u8>>> {
    let room = payload_room(data.mime);
    let count = chunk_count_for(data.payload.len(), room);
    Seq::new(
        count,
        |i: int|
            if order.take(k).contains(i) {
                Some(chunk_of(data, transfer_id, room, count, i).payload)
            } else {
                None
            },
    )
}

/// The chunks of a transfer in the order `order[0..k]`.
pub open spec fn chunks_in_order(
    data: SharedClipboardDataView,
    transfer_id: u32,
    order: Seq<int>,
    k: int,
) -> Seq<ClipboardDataView> {
    let room = payload_room(data.mime);
    let count = chunk_count_for(data.payload.len(), room);
    Seq::new(k as nat, |j: int| chunk_of(data, transfer_id, room, count, order[j]))
}

/// The receiver state after taking in `chunks` one after another, with the
/// result of the last of them.
pub open spec fn receive_all(state: Option<TransferView>, chunks: Seq<ClipboardDataView>) -> (
    Option<TransferView>,
    Result<Option<SharedClipboardDataView>, ClipboardError>,
)
    decreases chunks.len(),
{
    if chunks.len() == 0 {
        (state, Ok(None))
    } else {
        receive(receive_all(state, chunks.drop_last()).0, chunks.last())
    }
}

/// `order` names every chunk index of a `count`-chunk transfer exactly once.
pub open spec fn is_chunk_order(order: Seq<int>, count: nat) -> bool {
    &&& order.len() == count
    &&& forall|j: int| 0 <= j < order.len() ==> 0 <= #[trigger] order[j] < count
    &&& forall|j1: int, j2: int|
        0 <= j1 < order.len() && 0 <= j2 < order.len() && j1 != j2 ==> order[j1] != order[j2]
    &&& forall|i: int| 0 <= i < count ==> order.contains(i)
}

proof fn lemma_receive_prefix(
    data: SharedClipboardDataView,
    transfer_id: u32,
    order: Seq<int>,
    start: Option<TransferView>,
    k: int,
)
    requires
        sendable(data),
        chunk_count_for(data.payload.len(), payload_room(data.mime)) * payload_room(data.mime)
            <= MAX_CLIPBOARD_TRANSFER_SIZE,
        is_chunk_order(order, chunk_count_for(data.payload.len(), payload_room(data.mime))),
        start matches Some(t) ==> t.transfer_id != transfer_id,
        1 <= k <= order.len(),
    ensures
        ({
            let room = payload_room(data.mime);
            let count = chunk_count_for(data.payload.len(), room);
            let r = receive_all(start, chunks_in_order(data, transfer_id, order, k));
            if k == count {
                r == (None::<TransferView>, Ok::<
                    Option<SharedClipboardDataView>,
                    ClipboardError,
                >(Some(data)))
            } else {
                r == (Some(
                    TransferView {
                        transfer_id,
                        chunk_count: count as u16,
                        mime: data.mime,
                        chunks: slots_after(data, transfer_id, order, k),
                    },
                ), Ok::<Option<SharedClipboardDataView>, ClipboardError>(None))
            }
        }),
    decreases k,
{
    let room = payload_room(data.mime);
    let count = chunk_count_for(data.payload.len(), room);
    let chunks = chunks_in_order(data, transfer_id, order, k);
    let idx = order[k - 1];
    let c = chunk_of(data, transfer_id, room, count, idx);
    lemma_chunk_facts(data, transfer_id, idx);
    assert(chunks.last() == c);
    assert(chunks.drop_last() =~= chunks_in_order(data, transfer_id, order, k - 1));
    assert(chunk_shape_error(c) is None);
    let prev = receive_all(start, chunks.drop_last()).0;
    let base = TransferView {
        transfer_id,
        chunk_count: count as u16,
        mime: data.mime,
        chunks: slots_after(data, transfer_id, order, k - 1),
    };
    if k == 1 {
        assert(chunks.drop_last().len() == 0);
        assert(prev == start);
        assert(!continues(prev, c));
        assert(base.chunks =~= fresh_transfer(transfer_id, count as u16, data.mime).chunks) by {
            assert forall|i: int| 0 <= i < count implies !(#[trigger] order.take(0).contains(i)) by {}
        }
    } else {
        lemma_receive_prefix(data, transfer_id, order, start, k - 1);
        assert(prev == Some(base));
        assert(continues(prev, c));
    }
    let updated = base.chunks.update(idx, Some(c.payload));
    let before_k = order.take(k - 1);
    let upto_k = order.take(k);
    assert(updated =~= slots_after(data, transfer_id, order, k)) by {
        assert forall|i: int| 0 <= i < count implies #[trigger] updated[i] == slots_after(
            data,
            transfer_id,
            order,
            k,
        )[i] by {
            if i == idx {
                assert(upto_k[k - 1] == idx);
            } else {
                if upto_k.contains(i) {
                    let j = choose|j: int| 0 <= j < k && #[trigger] upto_k[j] == i;
                    assert(j != k - 1);
                    assert(before_k[j] == i);
                }
                if before_k.contains(i) {
                    let j = choose|j: int| 0 <= j < k - 1 && #[trigger] before_k[j] == i;
                    assert(upto_k[j] == i);
                }
            }
        }
    }
    if k == count {
        assert forall|i: int| 0 <= i < updated.len() implies (#[trigger] updated[i]) is Some by {
            assert(order.contains(i));
            let j = choose|j: int| 0 <= j < order.len() && #[trigger] order[j] == i;
            assert(upto_k[j] == i);
        }
        assert(all_received(updated));
        lemma_joined_prefix(data, transfer_id, count as int);
        assert(updated =~= filled_slots(data, transfer_id, count as int));
        lemma_chunk_bounds(data.payload.len(), room, 0);
        assert(data.payload.subrange(0, data.payload.len() as int) =~= data.payload);
    } else {
        let missing = order[k];
        assert(!order.take(k).contains(missing)) by {
            if upto_k.contains(missing) {
                let j = choose|j: int| 0 <= j < k && #[trigger] upto_k[j] == missing;
                assert(order[j] == order[k]);
            }
        }
        assert(updated[missing] is None);
        assert(!all_received(updated));
    }
}

/// Reassembly: the chunks the encoder makes of sendable data, taken in by
/// a receiver in any order that names each chunk once, and starting from
/// any receiver state that is not already in a transfer with the same id,
/// give `Ok(None)` until the last chunk, which gives the original data back
/// and leaves the receiver empty. (Data whose chunks could claim more than
/// `MAX_CLIPBOARD_TRANSFER_SIZE` is excluded: the receiver refuses it.)
pub proof fn lemma_reassembly(
    data: SharedClipboardDataView,
    transfer_id: u32,
    order: Seq<int>,
    start: Option<TransferView>,
    k: int,
)
    requires
        sendable(data),
        chunk_count_for(data.payload.len(), payload_room(data.mime)) * payload_room(data.mime)
            <= MAX_CLIPBOARD_TRANSFER_SIZE,
        is_chunk_order(order, chunk_count_for(data.payload.len(), payload_room(data.mime))),
        start matches Some(t) ==> t.transfer_id != transfer_id,
        1 <= k <= order.len(),
    ensures
        k < order.len() ==> receive_all(start, chunks_in_order(data, transfer_id, order, k)).1
            == Ok::<Option<SharedClipboardDataView>, ClipboardError>(None),
        k == order.len() ==> receive_all(start, chunks_in_order(data, transfer_id, order, k))
            == (None::<TransferView>, Ok::<Option<SharedClipboardDataView>, ClipboardError>(
            Some(data),
        )),
{
    lemma_receive_prefix(data, transfer_id, order, start, k);
}


/// A receiver state: no transfer, or one with a slot per chunk.
pub open spec fn receiver_state_wf(state: Option<TransferView>) -> bool {
    state matches Some(t) ==> t.chunks.len() == t.chunk_count as nat && t.chunk_count > 0
}

/// What every accepted chunk keeps: the receiver holds no transfer, or an
/// unfinished one with a slot per chunk; a rejected chunk changes nothing.
pub proof fn lemma_receive_keeps_state_wf(state: Option<TransferView>, c: ClipboardDataView)
    requires
        receiver_state_wf(state),
    ensures
        receiver_state_wf(receive(state, c).0),
        receive(state, c).1 is Err ==> receive(state, c).0 == state,
        receive(state, c).1 is Ok ==> (receive(state, c).0 matches Some(t) ==> !all_received(
            t.chunks,
        )),
{
}

} // verus!
