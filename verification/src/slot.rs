//! One validation slot: the mailbox through which a backend and the worker exchange one request
//! and its response.
use crate::text::{append_decimal, decimal, utf8_lossy};
use vstd::prelude::*;
use vstd::slice::*;
use vstd::string::*;
use vstd::utf8::*;

verus! {

/// The largest token, in bytes, that a slot holds.
pub const MAX_TOKEN_SIZE: usize = 8192;

/// The largest role name, in bytes, that a slot holds.
pub const MAX_ROLE_SIZE: usize = 256;

/// The largest authenticated identity, in bytes, that a slot holds.
pub const MAX_AUTHN_ID_SIZE: usize = 256;

/// The largest error message, in bytes, that a slot holds.
pub const MAX_ERROR_SIZE: usize = 512;

/// What a slot stands for: its texts without the buffers that hold them.
#[verifier::ext_equal]
pub struct SlotView {
    pub in_use: bool,
    pub backend_pid: i32,
    pub request_time: i64,
    pub backend_latch: usize,
    pub token: Seq<char>,
    pub role: Seq<char>,
    pub response_ready: bool,
    pub success: bool,
    pub authorized: bool,
    pub authn_id: Seq<char>,
    pub error_msg: Seq<char>,
}

impl SlotView {
    /// A slot that nobody has used yet.
    pub open spec fn initial() -> SlotView {
        SlotView {
            in_use: false,
            backend_pid: 0,
            request_time: 0,
            backend_latch: 0,
            token: Seq::empty(),
            role: Seq::empty(),
            response_ready: false,
            success: false,
            authorized: false,
            authn_id: Seq::empty(),
            error_msg: Seq::empty(),
        }
    }

    /// The slot after a backend has taken it. The texts of its last use are still there.
    pub open spec fn acquired(self, backend_pid: i32, now: i64) -> SlotView {
        SlotView { in_use: true, backend_pid, request_time: now, response_ready: false, ..self }
    }

    /// The slot after its backend has given it back.
    pub open spec fn released(self) -> SlotView {
        SlotView { in_use: false, backend_pid: 0, ..self }
    }

    /// The slot with a request in it.
    pub open spec fn with_request(self, token: Seq<char>, role: Seq<char>) -> SlotView {
        SlotView { token, role, ..self }
    }

    /// The slot with a response in it.
    pub open spec fn with_response(
        self,
        success: bool,
        authorized: bool,
        authn_id: Seq<char>,
        error_msg: Seq<char>,
    ) -> SlotView {
        SlotView { response_ready: true, success, authorized, authn_id, error_msg, ..self }
    }

    /// Whether there is a request that still waits for its response.
    pub open spec fn request_pending(self) -> bool {
        self.in_use && !self.response_ready
    }
}

/// The number of bytes of `text` in UTF-8.
pub open spec fn byte_len(text: Seq<char>) -> nat {
    encode_utf8(text).len()
}

/// Whether a slot has room for this request.
pub open spec fn request_fits(token: Seq<char>, role: Seq<char>) -> bool {
    byte_len(token) <= MAX_TOKEN_SIZE && byte_len(role) <= MAX_ROLE_SIZE
}

/// Whether a slot has room for this response.
pub open spec fn response_fits(authn_id: Seq<char>, error_msg: Seq<char>) -> bool {
    byte_len(authn_id) <= MAX_AUTHN_ID_SIZE && byte_len(error_msg) <= MAX_ERROR_SIZE
}

/// The complaint about something of `len` bytes that has no room.
pub open spec fn too_large_text(what: Seq<char>, len: nat) -> Seq<char> {
    what + " too large: "@ + decimal(len) + " bytes"@
}

/// The complaint about a request that has no room: the token's, if both are too large.
pub open spec fn request_error(token: Seq<char>, role: Seq<char>) -> Seq<char> {
    if byte_len(token) > MAX_TOKEN_SIZE {
        too_large_text("Token"@, byte_len(token))
    } else {
        too_large_text("Role"@, byte_len(role))
    }
}

/// The complaint about a response that has no room: the identity's, if both are too large.
pub open spec fn response_error(authn_id: Seq<char>, error_msg: Seq<char>) -> Seq<char> {
    if byte_len(authn_id) > MAX_AUTHN_ID_SIZE {
        too_large_text("Authn ID"@, byte_len(authn_id))
    } else {
        too_large_text("Error message"@, byte_len(error_msg))
    }
}

/// A validation slot. It consists of plain values only, so that it can lie in shared memory; who
/// shares it guards it with a lock.
#[derive(Clone, Copy)]
pub struct ValidationSlot {
    in_use: bool,
    backend_pid: i32,
    request_time: i64,
    backend_latch: usize,
    token: [u8; MAX_TOKEN_SIZE],
    token_len: usize,
    role: [u8; MAX_ROLE_SIZE],
    role_len: usize,
    response_ready: bool,
    success: bool,
    authorized: bool,
    authn_id: [u8; MAX_AUTHN_ID_SIZE],
    authn_id_len: usize,
    error_msg: [u8; MAX_ERROR_SIZE],
    error_msg_len: usize,
}

/// The first `len` bytes of a buffer.
spec fn held(buffer: Seq<u8>, len: usize) -> Seq<u8> {
    buffer.take(len as int)
}

/// Whether a buffer holds a text of `len` bytes.
spec fn holds_text(buffer: Seq<u8>, len: usize) -> bool {
    len <= buffer.len() && valid_utf8(held(buffer, len))
}

impl View for ValidationSlot {
    type V = SlotView;

    closed spec fn view(&self) -> SlotView {
        SlotView {
            in_use: self.in_use,
            backend_pid: self.backend_pid,
            request_time: self.request_time,
            backend_latch: self.backend_latch,
            token: decode_utf8(held(self.token@, self.token_len)),
            role: decode_utf8(held(self.role@, self.role_len)),
            response_ready: self.response_ready,
            success: self.success,
            authorized: self.authorized,
            authn_id: decode_utf8(held(self.authn_id@, self.authn_id_len)),
            error_msg: decode_utf8(held(self.error_msg@, self.error_msg_len)),
        }
    }
}

/// Copies `text` to the front of `buffer`.
fn store_text<const N: usize>(buffer: &mut [u8; N], text: &str) -> (len: usize)
    requires
        byte_len(text@) <= N,
    ensures
        len == byte_len(text@),
        holds_text(final(buffer)@, len),
        decode_utf8(held(final(buffer)@, len)) == text@,
{
    let bytes = text.as_bytes();
    let len: usize = bytes.len();
    let mut i: usize = 0;
    while i < len
        invariant
            i <= len <= N,
            len == bytes@.len(),
            buffer@.take(i as int) == bytes@.take(i as int),
        decreases len - i,
    {
        buffer[i] = bytes[i];
        i = i + 1;
        assert(buffer@.take(i as int) == bytes@.take(i as int));
    }
    proof {
        assert(bytes@.take(len as int) == bytes@);
        encode_utf8_valid_utf8(text@);
        encode_utf8_decode_utf8(text@);
    }
    len
}

/// The text of `len` bytes at the front of `buffer`.
fn load_text<const N: usize>(buffer: &[u8; N], len: usize) -> (text: String)
    requires
        holds_text(buffer@, len),
    ensures
        text@ == decode_utf8(held(buffer@, len)),
{
    utf8_lossy(slice_subrange(buffer.as_slice(), 0, len))
}

/// Words the complaint about something of `len` bytes that has no room.
fn too_large(what: &str, len: usize) -> (message: String)
    ensures
        message@ == too_large_text(what@, len as nat),
{
    let mut message = what.to_owned();
    message.append(" too large: ");
    append_decimal(&mut message, len);
    message.append(" bytes");
    message
}

impl ValidationSlot {
    /// Every length is within its buffer, and every text is valid UTF-8.
    pub closed spec fn wf(&self) -> bool {
        &&& holds_text(self.token@, self.token_len)
        &&& holds_text(self.role@, self.role_len)
        &&& holds_text(self.authn_id@, self.authn_id_len)
        &&& holds_text(self.error_msg@, self.error_msg_len)
    }

    /// A slot that nobody has used yet.
    pub fn new() -> (slot: ValidationSlot)
        ensures
            slot.wf(),
            slot@ == SlotView::initial(),
    {
        let slot = ValidationSlot {
            in_use: false,
            backend_pid: 0,
            request_time: 0,
            backend_latch: 0,
            token: [0u8; MAX_TOKEN_SIZE],
            token_len: 0,
            role: [0u8; MAX_ROLE_SIZE],
            role_len: 0,
            response_ready: false,
            success: false,
            authorized: false,
            authn_id: [0u8; MAX_AUTHN_ID_SIZE],
            authn_id_len: 0,
            error_msg: [0u8; MAX_ERROR_SIZE],
            error_msg_len: 0,
        };
        proof {
            slot.lemma_empty_texts();
        }
        slot
    }

    /// A slot whose lengths are all zero holds four empty texts.
    proof fn lemma_empty_texts(&self)
        requires
            self.token_len == 0,
            self.role_len == 0,
            self.authn_id_len == 0,
            self.error_msg_len == 0,
        ensures
            self.wf(),
            self@.token == Seq::<char>::empty(),
            self@.role == Seq::<char>::empty(),
            self@.authn_id == Seq::<char>::empty(),
            self@.error_msg == Seq::<char>::empty(),
    {
        assert(held(self.token@, 0) == Seq::<u8>::empty());
        assert(held(self.role@, 0) == Seq::<u8>::empty());
        assert(held(self.authn_id@, 0) == Seq::<u8>::empty());
        assert(held(self.error_msg@, 0) == Seq::<u8>::empty());
    }

    /// Puts the slot into its initial state, whatever it held before.
    pub fn init(&mut self)
        ensures
            final(self).wf(),
            final(self)@ == SlotView::initial(),
    {
        self.in_use = false;
        self.backend_pid = 0;
        self.request_time = 0;
        self.backend_latch = 0;
        self.token_len = 0;
        self.role_len = 0;
        self.response_ready = false;
        self.success = false;
        self.authorized = false;
        self.authn_id_len = 0;
        self.error_msg_len = 0;
        proof {
            self.lemma_empty_texts();
        }
    }

    /// Takes the slot for a backend, at the time `now` in milliseconds, unless it is in use.
    pub fn try_acquire(&mut self, backend_pid: i32, now: i64) -> (acquired: bool)
        requires
            old(self).wf(),
        ensures
            final(self).wf(),
            acquired == !old(self)@.in_use,
            acquired ==> final(self)@ == old(self)@.acquired(backend_pid, now),
            !acquired ==> final(self)@ == old(self)@,
    {
        if !self.in_use {
            self.in_use = true;
            self.backend_pid = backend_pid;
            self.request_time = now;
            self.response_ready = false;
            true
        } else {
            false
        }
    }

    /// Gives the slot back.
    pub fn release(&mut self)
        requires
            old(self).wf(),
        ensures
            final(self).wf(),
            final(self)@ == old(self)@.released(),
    {
        self.in_use = false;
        self.backend_pid = 0;
    }

    /// Notes the latch through which the waiting backend is woken; zero stands for none.
    pub fn set_backend_latch(&mut self, latch: usize)
        requires
            old(self).wf(),
        ensures
            final(self).wf(),
            final(self)@ == (SlotView { backend_latch: latch, ..old(self)@ }),
    {
        self.backend_latch = latch;
    }

    /// The latch of the waiting backend, if there is one.
    pub fn backend_latch(&self) -> (latch: Option<usize>)
        ensures
            latch == (if self@.backend_latch == 0 { None } else { Some(self@.backend_latch) }),
    {
        if self.backend_latch == 0 {
            None
        } else {
            Some(self.backend_latch)
        }
    }

    /// Whether the response has been written.
    pub fn is_response_ready(&self) -> (ready: bool)
        ensures
            ready == self@.response_ready,
    {
        self.response_ready
    }

    /// Writes the request, or says what of it is too large and leaves the slot as it is.
    pub fn set_request(&mut self, token: &str, role: &str) -> (stored: Result<(), String>)
        requires
            old(self).wf(),
        ensures
            final(self).wf(),
            stored is Ok <==> request_fits(token@, role@),
            stored is Ok ==> final(self)@ == old(self)@.with_request(token@, role@),
            stored matches Err(message) ==> {
                &&& message@ == request_error(token@, role@)
                &&& final(self)@ == old(self)@
            },
    {
        if token.as_bytes().len() > MAX_TOKEN_SIZE {
            return Err(too_large("Token", token.as_bytes().len()));
        }
        if role.as_bytes().len() > MAX_ROLE_SIZE {
            return Err(too_large("Role", role.as_bytes().len()));
        }
        self.token_len = store_text(&mut self.token, token);
        self.role_len = store_text(&mut self.role, role);
        Ok(())
    }

    /// The response: whether the validation succeeded, whether it authorizes, the authenticated
    /// identity and the error message.
    pub fn get_response(&self) -> (response: (bool, bool, String, String))
        requires
            self.wf(),
        ensures
            response.0 == self@.success,
            response.1 == self@.authorized,
            response.2@ == self@.authn_id,
            response.3@ == self@.error_msg,
    {
        (
            self.success,
            self.authorized,
            load_text(&self.authn_id, self.authn_id_len),
            load_text(&self.error_msg, self.error_msg_len),
        )
    }

    /// The request, as token and role, while it waits for its response.
    pub fn get_request(&self) -> (request: Option<(String, String)>)
        requires
            self.wf(),
        ensures
            request is Some <==> self@.request_pending(),
            request matches Some((token, role)) ==> token@ == self@.token && role@ == self@.role,
    {
        if !self.in_use || self.response_ready {
            return None;
        }
        Some((load_text(&self.token, self.token_len), load_text(&self.role, self.role_len)))
    }

    /// Writes the response, or says what of it is too large and leaves the slot as it is.
    pub fn set_response(
        &mut self,
        success: bool,
        authorized: bool,
        authn_id: &str,
        error_msg: &str,
    ) -> (stored: Result<(), String>)
        requires
            old(self).wf(),
        ensures
            final(self).wf(),
            stored is Ok <==> response_fits(authn_id@, error_msg@),
            stored is Ok ==> final(self)@ == old(self)@.with_response(
                success,
                authorized,
                authn_id@,
                error_msg@,
            ),
            stored matches Err(message) ==> {
                &&& message@ == response_error(authn_id@, error_msg@)
                &&& final(self)@ == old(self)@
            },
    {
        if authn_id.as_bytes().len() > MAX_AUTHN_ID_SIZE {
            return Err(too_large("Authn ID", authn_id.as_bytes().len()));
        }
        if error_msg.as_bytes().len() > MAX_ERROR_SIZE {
            return Err(too_large("Error message", error_msg.as_bytes().len()));
        }
        self.success = success;
        self.authorized = authorized;
        self.authn_id_len = store_text(&mut self.authn_id, authn_id);
        self.error_msg_len = store_text(&mut self.error_msg, error_msg);
        self.response_ready = true;
        Ok(())
    }
}

} // verus!
