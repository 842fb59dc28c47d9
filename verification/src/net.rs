//! The text-message server's logic: which received bytes become a toast,
//! the one-slot mailbox that hands a message from the network to the
//! display, and when the listening socket is opened or closed.

use vstd::prelude::*;

verus! {

/// TCP port the server listens on.
pub const PORT: u16 = 4545;
/// Capacity of the toast mailbox, in bytes.
pub const TOAST_MAX: usize = 64;
/// Most characters kept from one received message.
pub const CLEAN_MAX: usize = 60;

/// A byte that is shown: a visible ASCII character or a space.
pub open spec fn is_shown(b: u8) -> bool {
    (0x21 <= b && b <= 0x7e) || b == 0x20
}

/// The shown bytes of `s`, in order.
pub open spec fn shown_bytes(s: Seq<u8>) -> Seq<u8>
    decreases s.len(),
{
    if s.len() == 0 {
        seq![]
    } else if is_shown(s.last()) {
        shown_bytes(s.drop_last()).push(s.last())
    } else {
        shown_bytes(s.drop_last())
    }
}

/// At most `n` items from the front of `s`.
pub open spec fn at_most(s: Seq<u8>, n: int) -> Seq<u8> {
    if s.len() <= n { s } else { s.take(n) }
}

/// The toast text of a received message: its first 60 shown bytes.
pub fn clean_message(msg: &[u8]) -> (clean: Vec<u8>)
    ensures
        clean@ == at_most(shown_bytes(msg@), CLEAN_MAX as int),
{
    let mut clean: Vec<u8> = Vec::new();
    let mut i: usize = 0;
    while i < msg.len() && clean.len() < CLEAN_MAX
        invariant
            i <= msg@.len(),
            clean@ == at_most(shown_bytes(msg@.take(i as int)), CLEAN_MAX as int),
        decreases msg@.len() - i,
    {
        proof {
            assert(msg@.take(i + 1) =~= msg@.take(i as int).push(msg@[i as int]));
            lemma_at_most_shown_push(msg@.take(i as int), msg@[i as int]);
        }
        let b = msg[i];
        if (0x21 <= b && b <= 0x7e) || b == 0x20 {
            clean.push(b);
        }
        i = i + 1;
    }
    proof {
        if i == msg.len() {
            assert(msg@.take(msg@.len() as int) =~= msg@);
        } else {
            lemma_at_most_stable(msg@, i as int);
        }
    }
    clean
}

/// The bytes a toast shows are exactly the printable ASCII ones, space
/// (0x20) through tilde (0x7E).
pub proof fn lemma_shown_is_printable_ascii(b: u8)
    ensures
        is_shown(b) <==> 0x20 <= b <= 0x7e,
{
}

/// Cleaning keeps every printable byte of the message, in order, and
/// nothing else: a message made only of printable ASCII comes out whole,
/// and every byte that comes out is printable.
pub proof fn lemma_shown_bytes_printable(s: Seq<u8>)
    ensures
        (forall|i: int| 0 <= i < s.len() ==> 0x20 <= #[trigger] s[i] <= 0x7e) ==> shown_bytes(s) == s,
        forall|i: int| 0 <= i < shown_bytes(s).len() ==> 0x20 <= #[trigger] shown_bytes(s)[i] <= 0x7e,
        shown_bytes(s).len() <= s.len(),
    decreases s.len(),
{
    if s.len() > 0 {
        lemma_shown_bytes_printable(s.drop_last());
        if forall|i: int| 0 <= i < s.len() ==> 0x20 <= #[trigger] s[i] <= 0x7e {
            assert forall|i: int| 0 <= i < s.drop_last().len() implies 0x20 <= #[trigger] s.drop_last()[i] <= 0x7e by {
                assert(s.drop_last()[i] == s[i]);
            }
            assert(0x20 <= s[s.len() - 1] <= 0x7e);
            assert(s.drop_last().push(s.last()) =~= s);
        }
    }
}

/// A message of at most 60 printable ASCII bytes is its own toast text;
/// any message's toast text holds at most 60 bytes, all printable.
pub proof fn lemma_clean_printable_message(msg: Seq<u8>)
    ensures
        msg.len() <= CLEAN_MAX && (forall|i: int| 0 <= i < msg.len() ==> 0x20 <= #[trigger] msg[i] <= 0x7e)
            ==> at_most(shown_bytes(msg), CLEAN_MAX as int) == msg,
        at_most(shown_bytes(msg), CLEAN_MAX as int).len() <= CLEAN_MAX,
        forall|i: int|
            0 <= i < at_most(shown_bytes(msg), CLEAN_MAX as int).len() ==> 0x20 <= #[trigger] at_most(
                shown_bytes(msg),
                CLEAN_MAX as int,
            )[i] <= 0x7e,
{
    lemma_shown_bytes_printable(msg);
    let c = at_most(shown_bytes(msg), CLEAN_MAX as int);
    assert forall|i: int| 0 <= i < c.len() implies 0x20 <= #[trigger] c[i] <= 0x7e by {
        assert(c[i] == shown_bytes(msg)[i]);
    }
}

/// Shown bytes only grow as the message goes on.
proof fn lemma_shown_prefix(s: Seq<u8>, i: int)
    requires
        0 <= i <= s.len(),
    ensures
        shown_bytes(s.take(i)).len() <= shown_bytes(s).len(),
        shown_bytes(s).take(shown_bytes(s.take(i)).len() as int) == shown_bytes(s.take(i)),
    decreases s.len() - i,
{
    if i < s.len() {
        lemma_shown_prefix(s, i + 1);
        assert(s.take(i + 1).drop_last() =~= s.take(i));
        let a = shown_bytes(s.take(i));
        let b = shown_bytes(s.take(i + 1));
        assert(b.take(a.len() as int) =~= a);
        assert(shown_bytes(s).take(a.len() as int) =~= shown_bytes(s).take(b.len() as int).take(a.len() as int));
    } else {
        assert(s.take(i) =~= s);
        assert(shown_bytes(s).take(shown_bytes(s).len() as int) =~= shown_bytes(s));
    }
}

/// Once 60 shown bytes are collected, the rest of the message changes nothing.
proof fn lemma_at_most_stable(s: Seq<u8>, i: int)
    requires
        0 <= i <= s.len(),
        at_most(shown_bytes(s.take(i)), CLEAN_MAX as int).len() >= CLEAN_MAX,
    ensures
        at_most(shown_bytes(s), CLEAN_MAX as int) == at_most(shown_bytes(s.take(i)), CLEAN_MAX as int),
{
    lemma_shown_prefix(s, i);
    let a = shown_bytes(s.take(i));
    let b = shown_bytes(s);
    assert(b.take(CLEAN_MAX as int) =~= a.take(CLEAN_MAX as int)) by {
        assert(b.take(a.len() as int) == a);
        assert forall|k: int| 0 <= k < CLEAN_MAX implies b.take(CLEAN_MAX as int)[k] == a.take(CLEAN_MAX as int)[k] by {
            assert(b.take(a.len() as int)[k] == a[k]);
        }
    }
}

/// Adding one byte to a message that has fewer than 60 shown bytes adds it
/// to the toast when it is shown.
proof fn lemma_at_most_shown_push(s: Seq<u8>, b: u8)
    ensures
        at_most(shown_bytes(s), CLEAN_MAX as int).len() < CLEAN_MAX ==> at_most(shown_bytes(s.push(b)), CLEAN_MAX as int)
            == if is_shown(b) {
            at_most(shown_bytes(s), CLEAN_MAX as int).push(b)
        } else {
            at_most(shown_bytes(s), CLEAN_MAX as int)
        },
{
    assert(s.push(b).drop_last() =~= s);
}

/// The toast mailbox: at most one message waits, the latest one written.
pub struct ToastSlot {
    pub buf: [u8; 64],
    pub len: u8,
    pub ready: bool,
}

impl ToastSlot {
    /// An empty mailbox.
    pub fn new() -> (t: Self)
        ensures
            !t.ready,
            t.len == 0,
            t.buf@ == Seq::new(64, |i: int| 0u8),
    {
        let t = ToastSlot { buf: [0u8; 64], len: 0, ready: false };
        assert(t.buf@ =~= Seq::new(64, |i: int| 0u8));
        t
    }

    /// Posts `msg` (its first 64 bytes), replacing any waiting message.
    pub fn store(&mut self, msg: &[u8])
        ensures
            stored(*old(self), *final(self), msg@),
    {
        let n = if msg.len() < TOAST_MAX { msg.len() } else { TOAST_MAX };
        let mut i: usize = 0;
        while i < n
            invariant
                n <= msg@.len(),
                n <= TOAST_MAX,
                i <= n,
                self.buf@ == msg@.take(i as int) + old(self).buf@.skip(i as int),
            decreases n - i,
        {
            self.buf[i] = msg[i];
            assert(self.buf@ =~= msg@.take(i + 1) + old(self).buf@.skip(i + 1));
            i = i + 1;
        }
        self.len = n as u8;
        self.ready = true;
    }

    /// Takes the waiting message, if any: its bytes followed by zeros.
    pub fn take(&mut self) -> (m: Option<[u8; 64]>)
        requires
            old(self).len <= TOAST_MAX,
        ensures
            taken(*old(self), *final(self), m),
    {
        if self.ready {
            self.ready = false;
            let n = self.len as usize;
            let mut out = [0u8; 64];
            let mut i: usize = 0;
            while i < n
                invariant
                    n == self.len,
                    n <= TOAST_MAX,
                    i <= n,
                    out@ == self.buf@.take(i as int) + Seq::new((TOAST_MAX - i) as nat, |k: int| 0u8),
                decreases n - i,
            {
                out[i] = self.buf[i];
                assert(out@ =~= self.buf@.take(i + 1) + Seq::new((TOAST_MAX - i - 1) as nat, |k: int| 0u8));
                i = i + 1;
            }
            Some(out)
        } else {
            None
        }
    }
}

/// `after` is the mailbox `before` with `msg` (its first 64 bytes) posted.
pub open spec fn stored(before: ToastSlot, after: ToastSlot, msg: Seq<u8>) -> bool {
    let n: int = if msg.len() < TOAST_MAX { msg.len() as int } else { TOAST_MAX as int };
    &&& after.ready
    &&& after.len == n
    &&& after.buf@ == msg.take(n) + before.buf@.skip(n)
}

/// `after` is the mailbox `before` once its message, `m`, is taken: the
/// waiting bytes followed by zeros, or nothing when none was waiting.
pub open spec fn taken(before: ToastSlot, after: ToastSlot, m: Option<[u8; 64]>) -> bool {
    &&& !after.ready
    &&& after.len == before.len
    &&& after.buf == before.buf
    &&& before.ready ==> m is Some && m->0@ == before.buf@.take(before.len as int) + Seq::new(
        (TOAST_MAX - before.len) as nat,
        |i: int| 0u8,
    )
    &&& !before.ready ==> m is None
}

/// A message posted and then taken comes out whole (its first 64 bytes,
/// then zeros), and a second take finds nothing.
pub proof fn lemma_store_then_take(
    s0: ToastSlot,
    s1: ToastSlot,
    s2: ToastSlot,
    s3: ToastSlot,
    msg: Seq<u8>,
    m1: Option<[u8; 64]>,
    m2: Option<[u8; 64]>,
)
    requires
        stored(s0, s1, msg),
        taken(s1, s2, m1),
        taken(s2, s3, m2),
    ensures
        m1 is Some,
        m1->0@.take(s1.len as int) == at_most(msg, TOAST_MAX as int),
        m1->0@.skip(s1.len as int) == Seq::new((TOAST_MAX - s1.len) as nat, |i: int| 0u8),
        m2 is None,
{
    let b = m1->0@;
    assert(b.take(s1.len as int) =~= at_most(msg, TOAST_MAX as int));
    assert(b.skip(s1.len as int) =~= Seq::new((TOAST_MAX - s1.len) as nat, |i: int| 0u8));
}

/// The listening socket's bookkeeping between polls.
pub struct NetFlags {
    pub listening: bool,
    pub connected: bool,
}

/// Whether a frame asks the socket to listen: not yet listening and the
/// socket closed.
pub open spec fn listen_due(f: NetFlags, socket_open: bool) -> bool {
    !f.listening && !socket_open
}

/// The flags after a listen request that succeeded or not.
pub open spec fn after_listen(f: NetFlags, ok: bool) -> NetFlags {
    NetFlags { listening: f.listening || ok, connected: f.connected }
}

/// The flags after a receive of `n` bytes: a non-empty one means a client
/// is talking.
pub open spec fn after_receive(f: NetFlags, n: int) -> NetFlags {
    NetFlags { listening: f.listening, connected: f.connected || n > 0 }
}

/// Whether the client that sent data has gone: the socket is open but can
/// neither receive nor send.
pub open spec fn client_left(f: NetFlags, socket_open: bool, may_recv: bool, may_send: bool) -> bool {
    f.connected && socket_open && !may_recv && !may_send
}

/// The flags after looking for a departed client: reset when it has gone.
pub open spec fn after_check(f: NetFlags, socket_open: bool, may_recv: bool, may_send: bool) -> NetFlags {
    if client_left(f, socket_open, may_recv, may_send) {
        NetFlags { listening: false, connected: false }
    } else {
        f
    }
}

impl NetFlags {
    /// Not listening, no client.
    pub fn new() -> (f: Self)
        ensures
            !f.listening,
            !f.connected,
    {
        NetFlags { listening: false, connected: false }
    }

    /// Whether to start listening (see `listen_due`).
    pub fn should_listen(&self, socket_open: bool) -> (b: bool)
        ensures
            b == listen_due(*self, socket_open),
    {
        !self.listening && !socket_open
    }

    /// Records the outcome of a listen request.
    pub fn listened(&mut self, ok: bool)
        ensures
            *final(self) == after_listen(*old(self), ok),
    {
        if ok {
            self.listening = true;
        }
    }

    /// Records a receive of `n` bytes (see `after_receive`).
    pub fn received(&mut self, n: usize)
        ensures
            *final(self) == after_receive(*old(self), n as int),
    {
        if n > 0 {
            self.connected = true;
        }
    }

    /// Whether the client has gone (see `client_left`); when so, the flags
    /// are reset and the caller closes the socket.
    pub fn client_gone(&mut self, socket_open: bool, may_recv: bool, may_send: bool) -> (gone: bool)
        ensures
            gone == client_left(*old(self), socket_open, may_recv, may_send),
            *final(self) == after_check(*old(self), socket_open, may_recv, may_send),
    {
        if self.connected && socket_open && !may_recv && !may_send {
            self.connected = false;
            self.listening = false;
            true
        } else {
            false
        }
    }
}

/// The server's listening cycle: a fresh server listens on the first frame
/// that finds the socket closed; while a listen stands no frame listens
/// again, and receiving keeps it; once a client that sent data has gone,
/// the flags are reset, so the first frame after the socket is closed
/// listens again.
pub proof fn lemma_listen_cycle(f: NetFlags, socket_open: bool, n: int, may_recv: bool, may_send: bool)
    ensures
        listen_due(NetFlags { listening: false, connected: false }, false),
        !listen_due(after_listen(f, true), socket_open),
        !listen_due(after_receive(after_listen(f, true), n), socket_open),
        after_receive(f, n).listening == f.listening,
        f.connected && !may_recv && !may_send ==> client_left(f, true, may_recv, may_send)
            && listen_due(after_check(f, true, may_recv, may_send), false),
        !client_left(f, socket_open, may_recv, may_send) ==> after_check(f, socket_open, may_recv, may_send) == f,
{
}

} // verus!
