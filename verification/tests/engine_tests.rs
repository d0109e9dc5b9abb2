use tinyframe::{
    BufferTransport, Checksum, Crc16, Crc32, Crc8Maxim, Error, Frame, FrameCallback, FrameChannel,
    IdAllocator, ListenerAction, NoChecksum, ParseError, Peer, ReceivedFrame,
    SequentialIdAllocator, TinyFrame, TinyFrameBuilder, Transport, XorChecksum,
};

/// What the listeners of a receiving engine saw.
#[derive(Default)]
struct Seen {
    frames: Vec<(u32, u32, Vec<u8>, bool)>,
    generic_calls: usize,
    reply: Option<u32>,
    action: Option<ListenerAction>,
}

/// Records every frame it is called for; answers with `Seen::action`
/// (default `Stay`).
#[derive(Clone, Copy)]
struct Recorder;

impl<T, K, A, const ID: usize, const LEN: usize, const TY: usize>
    FrameCallback<Seen, T, K, A, ID, LEN, TY> for Recorder
where
    T: Transport,
    K: Checksum,
    A: IdAllocator,
{
    fn call(
        &self,
        ctx: &mut Seen,
        channel: &mut FrameChannel<T, K, ID, LEN, TY, A>,
        frame: ReceivedFrame<'_>,
    ) -> ListenerAction {
        ctx.frames.push((frame.id, frame.typ, frame.data.to_vec(), frame.timed_out));
        if let Some(typ) = ctx.reply {
            let _ = channel.respond(frame, typ, frame.data);
        }
        ctx.action.unwrap_or(ListenerAction::Stay)
    }
}

/// Counts its calls; registered as the catch-all listener.
#[derive(Clone, Copy)]
struct Counter;

impl<T, K, A, const ID: usize, const LEN: usize, const TY: usize>
    FrameCallback<Seen, T, K, A, ID, LEN, TY> for Counter
where
    T: Transport,
    K: Checksum,
    A: IdAllocator,
{
    fn call(
        &self,
        ctx: &mut Seen,
        _channel: &mut FrameChannel<T, K, ID, LEN, TY, A>,
        _frame: ReceivedFrame<'_>,
    ) -> ListenerAction {
        ctx.generic_calls += 1;
        ListenerAction::Stay
    }
}

/// Either listener kind, so that one engine can hold both.
#[derive(Clone, Copy)]
enum Listener {
    Record,
    Count,
}

impl<T, K, A, const ID: usize, const LEN: usize, const TY: usize>
    FrameCallback<Seen, T, K, A, ID, LEN, TY> for Listener
where
    T: Transport,
    K: Checksum,
    A: IdAllocator,
{
    fn call(
        &self,
        ctx: &mut Seen,
        channel: &mut FrameChannel<T, K, ID, LEN, TY, A>,
        frame: ReceivedFrame<'_>,
    ) -> ListenerAction {
        match self {
            Listener::Record => Recorder.call(ctx, channel, frame),
            Listener::Count => Counter.call(ctx, channel, frame),
        }
    }
}

type Engine<K, const ID: usize, const LEN: usize, const TY: usize> =
    TinyFrame<Seen, BufferTransport<512>, K, Listener, 64, 4, 4, ID, LEN, TY>;

fn engine<K: Checksum, const ID: usize, const LEN: usize, const TY: usize>(
    checksum: K,
    peer: Peer,
) -> Engine<K, ID, LEN, TY> {
    TinyFrame::new(Seen::default(), BufferTransport::new(), checksum, peer, 0xAA, 10).unwrap()
}

/// Send with one engine, feed its output to another configured alike.
fn roundtrip<K: Checksum + Copy, const ID: usize, const LEN: usize, const TY: usize>(
    checksum: K,
    id: u32,
    typ: u32,
    data: &[u8],
) {
    let mut tx: Engine<K, ID, LEN, TY> = engine(checksum, Peer::Master);
    let mut rx: Engine<K, ID, LEN, TY> = engine(checksum, Peer::Slave);
    rx.add_type_listener(typ, Listener::Record).unwrap();
    tx.send(Frame { id, typ, is_response: true }, data).unwrap();
    let wire = tx.transport_mut().bytes().to_vec();
    rx.accept(&wire);
    assert_eq!(rx.last_parse_error(), None);
    assert_eq!(rx.context().frames, vec![(id, typ, data.to_vec(), false)]);
}

#[test]
fn roundtrip_every_builtin_checksum() {
    roundtrip::<NoChecksum, 1, 1, 1>(NoChecksum, 0x12, 0x34, &[1, 2, 3]);
    roundtrip::<XorChecksum, 1, 1, 1>(XorChecksum, 0x12, 0x34, &[1, 2, 3]);
    roundtrip::<Crc8Maxim, 1, 1, 1>(Crc8Maxim, 0x12, 0x34, &[1, 2, 3]);
    roundtrip::<Crc16, 2, 2, 1>(Crc16, 0x0102, 0x05, &[1, 2, 3]);
    roundtrip::<Crc32, 4, 4, 4>(Crc32, 0x0102_0304, 0x0506_0708, &[9; 40]);
}

#[test]
fn roundtrip_empty_payload_with_checksum() {
    roundtrip::<Crc16, 1, 1, 1>(Crc16, 0x07, 0x08, &[]);
    roundtrip::<XorChecksum, 2, 1, 2>(XorChecksum, 0x0707, 0x0808, &[]);
    roundtrip::<NoChecksum, 2, 1, 2>(NoChecksum, 0x0707, 0x0808, &[]);
}

#[test]
fn empty_payload_without_checksum_is_delivered() {
    let mut tx: Engine<NoChecksum, 1, 1, 1> = engine(NoChecksum, Peer::Master);
    let mut rx: Engine<NoChecksum, 1, 1, 1> = engine(NoChecksum, Peer::Slave);
    rx.add_type_listener(0x08, Listener::Record).unwrap();
    tx.send(Frame { id: 0x07, typ: 0x08, is_response: true }, &[]).unwrap();
    let wire = tx.transport_mut().bytes().to_vec();
    assert_eq!(wire, vec![0xAA, 0x07, 0x00, 0x08]);
    rx.accept(&wire);
    assert_eq!(rx.context().frames, vec![(0x07, 0x08, vec![], false)]);
    // the parser waits for the next SOF: a second frame is received too
    rx.accept(&wire);
    assert_eq!(rx.context().frames.len(), 2);
    assert_eq!(rx.last_parse_error(), None);
}

#[test]
fn crc16_frame_exact_bytes() {
    let mut tx: Engine<Crc16, 2, 2, 1> = engine(Crc16, Peer::Master);
    tx.send(Frame { id: 0x0102, typ: 0x05, is_response: true }, &[1, 2, 3]).unwrap();
    assert_eq!(
        tx.transport_mut().bytes(),
        &[0xAA, 0x01, 0x02, 0x00, 0x03, 0x05, 0x8B, 0xFC, 1, 2, 3, 0xA1, 0x10]
    );
}

#[test]
fn single_byte_checksum_values() {
    fn calc<K: Checksum>(ck: K, bytes: &[u8]) -> K::Value {
        let mut acc = ck.start();
        for &b in bytes {
            acc = ck.add(acc, b);
        }
        ck.finish(acc)
    }
    assert_eq!(calc(Crc8Maxim, b"A"), 0x18);
    assert_eq!(calc(Crc16, b"A"), 0x30C0);
    assert_eq!(calc(Crc32, b"A"), 0xD3D9_9E8B);
    assert_eq!(calc(NoChecksum, b"A"), 0);
    let mut out = [0u8; 4];
    assert_eq!(Crc32.encode(0x0102_0304, &mut out), 4);
    assert_eq!(out, [1, 2, 3, 4]);
    assert_eq!(Crc32.decode(&out), 0x0102_0304);
    assert_eq!(Crc16.encode(0xBB3D, &mut out), 2);
    assert_eq!(&out[..2], &[0xBB, 0x3D]);
    assert_eq!(Crc16.decode(&out[..2]), 0xBB3D);
    assert_eq!(NoChecksum.encode(7, &mut out), 0);
}

#[test]
fn multipart_matches_single_send() {
    let mut one: Engine<Crc32, 1, 2, 1> = engine(Crc32, Peer::Master);
    let mut parts: Engine<Crc32, 1, 2, 1> = engine(Crc32, Peer::Master);
    let frame = Frame { id: 0x31, typ: 0x09, is_response: true };
    one.send(frame, &[1, 2, 3, 4, 5]).unwrap();
    assert_eq!(parts.send_multipart(frame, 5).unwrap(), 0x31);
    parts.multipart_payload(&[1, 2]).unwrap();
    parts.multipart_payload(&[]).unwrap();
    parts.multipart_payload(&[3, 4, 5]).unwrap();
    parts.multipart_close().unwrap();
    assert_eq!(one.transport_mut().bytes(), parts.transport_mut().bytes());
}

#[test]
fn invalid_field_width_is_rejected() {
    let r: Result<TinyFrame<Seen, BufferTransport<16>, NoChecksum, Listener, 8, 1, 1, 0, 1, 1>, _> =
        TinyFrame::new(Seen::default(), BufferTransport::new(), NoChecksum, Peer::Master, 1, 1);
    assert!(matches!(r, Err(Error::InvalidFieldWidth)));
    let r: Result<TinyFrame<Seen, BufferTransport<16>, NoChecksum, Listener, 8, 1, 1, 1, 5, 1>, _> =
        TinyFrame::new(Seen::default(), BufferTransport::new(), NoChecksum, Peer::Master, 1, 1);
    assert!(matches!(r, Err(Error::InvalidFieldWidth)));
}

#[derive(Clone, Copy)]
struct WideChecksum;

impl Checksum for WideChecksum {
    type Value = u8;
    const WIDTH: usize = 5;
    fn start(&self) -> u8 {
        0
    }
    fn add(&self, sum: u8, _byte: u8) -> u8 {
        sum
    }
    fn finish(&self, sum: u8) -> u8 {
        sum
    }
    fn encode(&self, _sum: u8, _out: &mut [u8]) -> usize {
        5
    }
    fn decode(&self, _bytes: &[u8]) -> u8 {
        0
    }
}

#[test]
fn checksum_wider_than_four_bytes_is_rejected() {
    let r: Result<TinyFrame<Seen, BufferTransport<16>, WideChecksum, Listener, 8, 1, 1, 1, 1, 1>, _> =
        TinyFrame::new(Seen::default(), BufferTransport::new(), WideChecksum, Peer::Master, 1, 1);
    assert!(matches!(r, Err(Error::InvalidFieldWidth)));
}

#[test]
fn values_that_do_not_fit_their_fields_are_rejected() {
    let mut tf: Engine<NoChecksum, 1, 1, 1> = engine(NoChecksum, Peer::Master);
    let long = [0u8; 256];
    assert!(matches!(
        tf.send(Frame { id: 1, typ: 1, is_response: true }, &long),
        Err(Error::LengthOverflow)
    ));
    assert!(matches!(
        tf.send(Frame { id: 0x100, typ: 1, is_response: true }, &[1]),
        Err(Error::LengthOverflow)
    ));
    assert!(matches!(
        tf.send(Frame { id: 1, typ: 0x1FF, is_response: true }, &[1]),
        Err(Error::LengthOverflow)
    ));
    assert!(matches!(
        tf.send_multipart(Frame { id: 1, typ: 1, is_response: true }, 256),
        Err(Error::LengthOverflow)
    ));
    assert!(tf.transport_mut().bytes().is_empty());
}

#[test]
fn multipart_errors() {
    let mut tf: Engine<Crc8Maxim, 1, 1, 1> = engine(Crc8Maxim, Peer::Master);
    assert!(matches!(tf.multipart_payload(&[1]), Err(Error::MultipartNotStarted)));
    assert!(matches!(tf.multipart_close(), Err(Error::MultipartNotStarted)));
    tf.send_multipart(Frame { id: 2, typ: 3, is_response: true }, 3).unwrap();
    assert!(matches!(
        tf.send(Frame { id: 2, typ: 3, is_response: true }, &[1]),
        Err(Error::TxBusy)
    ));
    assert!(matches!(
        tf.send_multipart(Frame { id: 2, typ: 3, is_response: true }, 1),
        Err(Error::TxBusy)
    ));
    tf.multipart_payload(&[1, 2]).unwrap();
    assert!(matches!(tf.multipart_close(), Err(Error::MultipartLengthMismatch)));
    // the multipart state is gone: a new frame can be sent
    tf.send(Frame { id: 4, typ: 5, is_response: true }, &[6]).unwrap();
}

#[test]
fn no_free_listener_slot() {
    let mut tf: TinyFrame<Seen, BufferTransport<16>, NoChecksum, Listener, 8, 1, 1, 1, 1, 1> =
        TinyFrame::new(Seen::default(), BufferTransport::new(), NoChecksum, Peer::Master, 1, 1).unwrap();
    assert_eq!(tf.add_id_listener(1, 0, Listener::Record).unwrap(), 0);
    assert!(matches!(tf.add_id_listener(2, 0, Listener::Record), Err(Error::NoListenerSlot)));
    assert_eq!(tf.add_type_listener(1, Listener::Record).unwrap(), 0);
    assert!(matches!(tf.add_type_listener(2, Listener::Record), Err(Error::NoListenerSlot)));
    assert!(tf.remove_type_listener(0));
    assert_eq!(tf.add_type_listener(2, Listener::Record).unwrap(), 0);
}

#[test]
fn payload_longer_than_receive_buffer_is_rejected() {
    let mut rx: TinyFrame<Seen, BufferTransport<16>, NoChecksum, Listener, 4, 1, 1, 1, 1, 1> =
        TinyFrame::new(Seen::default(), BufferTransport::new(), NoChecksum, Peer::Slave, 0xAA, 5).unwrap();
    rx.add_type_listener(3, Listener::Record).unwrap();
    rx.accept(&[0xAA, 1, 5, 3, 1, 2, 3, 4, 5]);
    assert_eq!(rx.last_parse_error(), Some(ParseError::PayloadTooLarge));
    assert!(rx.context().frames.is_empty());
    // a frame that fits is still accepted afterwards
    rx.accept(&[0xAA, 1, 4, 3, 1, 2, 3, 4]);
    assert_eq!(rx.context().frames, vec![(1, 3, vec![1, 2, 3, 4], false)]);
}

#[test]
fn corrupted_checksum_is_rejected() {
    let mut tx: Engine<Crc16, 1, 1, 1> = engine(Crc16, Peer::Master);
    let mut rx: Engine<Crc16, 1, 1, 1> = engine(Crc16, Peer::Slave);
    rx.add_type_listener(2, Listener::Record).unwrap();
    tx.send(Frame { id: 1, typ: 2, is_response: true }, &[7, 7]).unwrap();
    let mut wire = tx.transport_mut().bytes().to_vec();
    let last = wire.len() - 1;
    wire[last] ^= 0x01;
    rx.accept(&wire);
    assert_eq!(rx.last_parse_error(), Some(ParseError::ChecksumMismatch));
    assert!(rx.context().frames.is_empty());
}

#[test]
fn parser_timeout_drops_partial_frame() {
    let mut rx: Engine<NoChecksum, 1, 1, 1> = engine(NoChecksum, Peer::Slave);
    rx.add_type_listener(3, Listener::Record).unwrap();
    // a frame cut after its header
    rx.accept(&[0xAA, 1, 2, 3]);
    for _ in 0..9 {
        rx.tick();
    }
    // still inside the frame: one more payload byte is taken as payload
    rx.accept(&[5]);
    for _ in 0..10 {
        rx.tick();
    }
    // now dropped: a complete frame parses cleanly
    rx.accept(&[0xAA, 4, 1, 3, 9]);
    assert_eq!(rx.context().frames, vec![(4, 3, vec![9], false)]);
}

#[test]
fn noise_before_sof_is_ignored() {
    let mut rx: Engine<NoChecksum, 1, 1, 1> = engine(NoChecksum, Peer::Slave);
    rx.add_type_listener(3, Listener::Record).unwrap();
    rx.accept(&[0x00, 0x13, 0xFF, 0xAB, 0xAA, 2, 1, 3, 8]);
    assert_eq!(rx.context().frames, vec![(2, 3, vec![8], false)]);
    assert_eq!(rx.last_parse_error(), None);
}

#[test]
fn allocated_ids_carry_the_peer_bit() {
    let mut master: Engine<NoChecksum, 1, 1, 1> = engine(NoChecksum, Peer::Master);
    let mut slave: Engine<NoChecksum, 1, 1, 1> = engine(NoChecksum, Peer::Slave);
    for tf in [&mut master, &mut slave] {
        tf.send(Frame { id: 0, typ: 1, is_response: false }, &[1]).unwrap();
        tf.send(Frame { id: 0, typ: 1, is_response: false }, &[1]).unwrap();
        // an explicit ID and a response keep their ID
        tf.send(Frame { id: 0x33, typ: 1, is_response: false }, &[1]).unwrap();
        tf.send(Frame { id: 0, typ: 1, is_response: true }, &[1]).unwrap();
    }
    let m = master.transport_mut().bytes().to_vec();
    let s = slave.transport_mut().bytes().to_vec();
    let ids = |b: &[u8]| vec![b[1], b[6], b[11], b[16]];
    assert_eq!(ids(&m), vec![0x80, 0x81, 0x33, 0x00]);
    assert_eq!(ids(&s), vec![0x00, 0x01, 0x33, 0x00]);
}

#[test]
fn allocated_ids_wrap_below_the_peer_bit() {
    let mut alloc = SequentialIdAllocator;
    let mut next: u32 = 0x7F;
    assert_eq!(alloc.alloc_id::<1>(&mut next, true), 0xFF);
    assert_eq!(next, 0);
    let mut next: u32 = u32::MAX;
    assert_eq!(alloc.alloc_id::<4>(&mut next, false), 0x7FFF_FFFF);
    assert_eq!(next, 0);
    let mut next: u32 = 0x1234;
    assert_eq!(alloc.alloc_id::<2>(&mut next, true), 0x9234);
    assert_eq!(next, 0x1235);
}

#[test]
fn buffer_transport_keeps_first_n_bytes() {
    let mut t = BufferTransport::<4>::new();
    t.write(&[1, 2, 3]).unwrap();
    t.write(&[4, 5, 6]).unwrap();
    assert_eq!(t.bytes(), &[1, 2, 3, 4]);
    t.clear();
    assert!(t.bytes().is_empty());
    t.write(&[9]).unwrap();
    assert_eq!(t.bytes(), &[9]);
}

#[test]
fn generic_listener_only_when_unhandled() {
    let mut rx: Engine<NoChecksum, 1, 1, 1> = engine(NoChecksum, Peer::Slave);
    rx.add_type_listener(3, Listener::Record).unwrap();
    rx.set_generic_listener(Listener::Count);
    rx.accept(&[0xAA, 1, 1, 3, 0]);
    assert_eq!(rx.context().generic_calls, 0);
    rx.accept(&[0xAA, 1, 1, 4, 0]);
    assert_eq!(rx.context().generic_calls, 1);
    rx.clear_generic_listener();
    rx.accept(&[0xAA, 1, 1, 4, 0]);
    assert_eq!(rx.context().generic_calls, 1);
    assert_eq!(rx.context().frames.len(), 1);
}

#[test]
fn unheard_frame_changes_nothing() {
    let mut rx: Engine<NoChecksum, 1, 1, 1> = engine(NoChecksum, Peer::Slave);
    rx.context_mut().reply = Some(0x22);
    rx.accept(&[0xAA, 1, 1, 0xFF, 0]);
    assert!(rx.context().frames.is_empty());
    assert!(rx.transport_mut().bytes().is_empty());
}

#[test]
fn listener_can_respond() {
    let mut rx: Engine<NoChecksum, 1, 1, 1> = engine(NoChecksum, Peer::Slave);
    rx.context_mut().reply = Some(0x22);
    rx.add_type_listener(0x23, Listener::Record).unwrap();
    rx.accept(&[0xAA, 0x02, 0x04, 0x23, b'p', b'o', b'n', b'g']);
    assert_eq!(rx.transport_mut().bytes(), &[0xAA, 0x02, 0x04, 0x22, b'p', b'o', b'n', b'g']);
}

#[test]
fn id_listener_actions() {
    let mut rx: Engine<NoChecksum, 1, 1, 1> = engine(NoChecksum, Peer::Slave);
    rx.add_id_listener(5, 3, Listener::Record).unwrap();
    rx.tick();
    rx.tick();
    // a frame for the listener's ID, answered with Renew: the timeout restarts
    rx.context_mut().action = Some(ListenerAction::Renew);
    rx.accept(&[0xAA, 5, 1, 9, 0]);
    rx.tick();
    rx.tick();
    assert_eq!(rx.context().frames.len(), 1);
    rx.tick();
    // timed out now: called once more, with a timed-out frame
    assert_eq!(rx.context().frames.len(), 2);
    assert_eq!(rx.context().frames[1], (5, 0, vec![], true));
    rx.tick();
    rx.tick();
    assert_eq!(rx.context().frames.len(), 2);
    assert!(!rx.remove_id_listener(0));
}

#[test]
fn id_listener_close_removes_it() {
    let mut rx: Engine<NoChecksum, 1, 1, 1> = engine(NoChecksum, Peer::Slave);
    rx.add_id_listener(5, 0, Listener::Record).unwrap();
    rx.context_mut().action = Some(ListenerAction::Close);
    rx.accept(&[0xAA, 5, 1, 9, 0]);
    rx.accept(&[0xAA, 5, 1, 9, 0]);
    assert_eq!(rx.context().frames.len(), 1);
    assert!(!rx.remove_id_listener(0));
}

#[test]
fn listener_with_timeout_zero_never_times_out() {
    let mut rx: Engine<NoChecksum, 1, 1, 1> = engine(NoChecksum, Peer::Slave);
    rx.add_id_listener(5, 0, Listener::Record).unwrap();
    for _ in 0..100 {
        rx.tick();
    }
    assert!(rx.context().frames.is_empty());
    assert!(rx.remove_id_listener(0));
}

#[test]
fn remove_and_renew_by_key() {
    let mut rx: Engine<NoChecksum, 1, 1, 1> = engine(NoChecksum, Peer::Slave);
    assert!(!rx.remove_id_listener_by_frame_id(7));
    assert!(!rx.remove_type_listener_by_type(7));
    assert!(!rx.renew_id_listener(7));
    rx.add_id_listener(7, 2, Listener::Record).unwrap();
    rx.add_type_listener(7, Listener::Record).unwrap();
    assert!(rx.renew_id_listener(7));
    assert!(rx.remove_id_listener_by_frame_id(7));
    assert!(!rx.remove_id_listener_by_frame_id(7));
    assert!(rx.remove_type_listener_by_type(7));
    assert!(!rx.remove_type_listener_by_type(7));
}

#[test]
fn reset_parser_drops_partial_frame() {
    let mut rx: Engine<NoChecksum, 1, 1, 1> = engine(NoChecksum, Peer::Slave);
    rx.add_type_listener(3, Listener::Record).unwrap();
    rx.accept(&[0xAA, 1, 2, 3, 4]);
    rx.reset_parser();
    rx.accept(&[0xAA, 1, 1, 3, 6]);
    assert_eq!(rx.context().frames, vec![(1, 3, vec![6], false)]);
}

#[test]
fn builder_defaults_and_settings() {
    let mut tf: TinyFrame<Seen, BufferTransport<64>, XorChecksum, Listener, 16, 2, 2, 1, 1, 1> =
        TinyFrameBuilder::new(Seen::default(), BufferTransport::new(), XorChecksum)
            .build::<Listener, 16, 2, 2, 1, 1, 1>()
            .unwrap();
    tf.send(Frame { id: 0, typ: 2, is_response: false }, &[]).unwrap();
    // SOF 0x01, master peer bit, XOR header checksum ~(0x80 ^ 0 ^ 2)
    assert_eq!(tf.transport_mut().bytes(), &[0x01, 0x80, 0x00, 0x02, !(0x80u8 ^ 0x02)]);

    let mut tf: TinyFrame<Seen, BufferTransport<64>, XorChecksum, Listener, 16, 2, 2, 1, 1, 1> =
        TinyFrameBuilder::new(Seen::default(), BufferTransport::new(), XorChecksum)
            .peer(Peer::Slave)
            .sof(0x55)
            .parser_timeout_ticks(3)
            .build_with_strategies::<SequentialIdAllocator, tinyframe::IdThenTypeDispatch, Listener, 16, 2, 2, 1, 1, 1>()
            .unwrap();
    tf.send(Frame { id: 0, typ: 2, is_response: false }, &[]).unwrap();
    assert_eq!(tf.transport_mut().bytes(), &[0x55, 0x00, 0x00, 0x02, !0x02u8]);
}

#[test]
fn new_simple_defaults() {
    let mut tf: Engine<NoChecksum, 1, 1, 1> =
        TinyFrame::new_simple(Seen::default(), BufferTransport::new(), NoChecksum).unwrap();
    tf.send(Frame { id: 0, typ: 2, is_response: false }, &[3]).unwrap();
    assert_eq!(tf.transport_mut().bytes(), &[0x01, 0x80, 0x01, 0x02, 0x03]);
}

#[test]
fn add_then_remove_frees_the_slot() {
    let mut rx: Engine<NoChecksum, 1, 1, 1> = engine(NoChecksum, Peer::Slave);
    rx.add_id_listener(1, 0, Listener::Record).unwrap();
    let slot = rx.add_id_listener(2, 0, Listener::Record).unwrap();
    assert_eq!(slot, 1);
    assert!(rx.remove_id_listener(slot));
    // the freed slot is the first free one again
    assert_eq!(rx.add_id_listener(3, 0, Listener::Record).unwrap(), slot);
    let tslot = rx.add_type_listener(4, Listener::Record).unwrap();
    assert!(rx.remove_type_listener(tslot));
    assert!(!rx.remove_type_listener(tslot));
    assert!(!rx.remove_type_listener(99));
}

#[test]
fn frames_differing_in_sof_agree_elsewhere() {
    let mut a: Engine<Crc32, 1, 2, 1> =
        TinyFrame::new(Seen::default(), BufferTransport::new(), Crc32, Peer::Master, 0x01, 10).unwrap();
    let mut b: Engine<Crc32, 1, 2, 1> =
        TinyFrame::new(Seen::default(), BufferTransport::new(), Crc32, Peer::Master, 0x7E, 10).unwrap();
    let frame = Frame { id: 0x11, typ: 0x22, is_response: true };
    a.send(frame, &[1, 2, 3, 4]).unwrap();
    b.send(frame, &[1, 2, 3, 4]).unwrap();
    let wa = a.transport_mut().bytes().to_vec();
    let wb = b.transport_mut().bytes().to_vec();
    assert_eq!(wa[0], 0x01);
    assert_eq!(wb[0], 0x7E);
    assert_eq!(wa[1..], wb[1..]);
    // SOF, ID, LEN (2 bytes), TYPE, header CRC, payload, payload CRC
    assert_eq!(wa.len(), 1 + 1 + 2 + 1 + 4 + 4 + 4);
}

#[test]
fn generic_listener_runs_when_every_listener_answers_next() {
    let mut rx: Engine<NoChecksum, 1, 1, 1> = engine(NoChecksum, Peer::Slave);
    rx.add_id_listener(1, 0, Listener::Record).unwrap();
    rx.add_type_listener(3, Listener::Record).unwrap();
    rx.set_generic_listener(Listener::Count);
    rx.context_mut().action = Some(ListenerAction::Next);
    rx.accept(&[0xAA, 1, 1, 3, 0]);
    // both matching listeners saw the frame, and neither consumed it
    assert_eq!(rx.context().frames.len(), 2);
    assert_eq!(rx.context().generic_calls, 1);
    rx.context_mut().action = Some(ListenerAction::Stay);
    rx.accept(&[0xAA, 1, 1, 3, 0]);
    assert_eq!(rx.context().frames.len(), 4);
    assert_eq!(rx.context().generic_calls, 1);
}
