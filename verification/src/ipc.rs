//! GUI to tray-host messages: the payload encoding and the length-prefixed frame
//! that carries each payload over the named pipe.

use vstd::prelude::*;
use vstd::bytes::*;
use vstd::slice::slice_subrange;

verus! {

pub const TRAY_READY_EVENT_NAME: &'static str = "MemoryCleanr_TrayReady_v1";
pub const GUI_TO_TRAY_PIPE_NAME: &'static str = "\\\\.\\pipe\\MemoryCleanr.GuiToTray.v1";
pub const TRAY_READY_WAIT_MS: u32 = 15_000;

/// Largest payload a reader accepts from one frame.
pub const MAX_FRAME_PAYLOAD: usize = 4096;

pub const TAG_REGISTER_GUI: u8 = 1;
pub const TAG_UNREGISTER_GUI: u8 = 2;
pub const TAG_SPIN_START: u8 = 3;
pub const TAG_SPIN_STOP: u8 = 4;
pub const TAG_SETTINGS_CHANGED: u8 = 5;

/// Length of a `RegisterGui` payload: tag, little-endian pid, little-endian window handle.
pub const REGISTER_GUI_PAYLOAD_LEN: usize = 13;

#[derive(Debug, Clone, Copy, PartialEq, Eq, Structural)]
pub struct GuiSession {
    pub pid: u32,
    pub hwnd: isize,
}

#[derive(Debug, Clone, Copy, PartialEq, Eq, Structural)]
pub enum IpcMessage {
    RegisterGui { pid: u32, hwnd: isize },
    UnregisterGui,
    SpinStart,
    SpinStop,
    SettingsChanged,
}

/// Why a payload or frame was rejected.
#[derive(Debug, Clone, Copy, PartialEq, Eq, Structural)]
pub enum IpcError {
    EmptyPayload,
    InvalidRegisterGuiLength,
    /// The window handle does not fit the platform's `isize`.
    HwndOutOfRange,
    UnknownTag(u8),
    FrameTooLarge(u32),
}

/// The window handle as the eight little-endian bytes of its 64-bit two's complement form.
pub open spec fn spec_hwnd_bits(hwnd: isize) -> u64 {
    (hwnd as i64) as u64
}

pub open spec fn spec_encode_message(message: IpcMessage) -> Seq<u8> {
    match message {
        IpcMessage::RegisterGui { pid, hwnd } => seq![TAG_REGISTER_GUI] + spec_u32_to_le_bytes(pid)
            + spec_u64_to_le_bytes(spec_hwnd_bits(hwnd)),
        IpcMessage::UnregisterGui => seq![TAG_UNREGISTER_GUI],
        IpcMessage::SpinStart => seq![TAG_SPIN_START],
        IpcMessage::SpinStop => seq![TAG_SPIN_STOP],
        IpcMessage::SettingsChanged => seq![TAG_SETTINGS_CHANGED],
    }
}

pub open spec fn spec_decode_register_gui(payload: Seq<u8>) -> Result<IpcMessage, IpcError> {
    if payload.len() != REGISTER_GUI_PAYLOAD_LEN {
        Err(IpcError::InvalidRegisterGuiLength)
    } else {
        let pid = spec_u32_from_le_bytes(payload.subrange(1, 5));
        let raw = spec_u64_from_le_bytes(payload.subrange(5, 13)) as i64;
        if isize::MIN <= raw && raw <= isize::MAX {
            Ok(IpcMessage::RegisterGui { pid, hwnd: raw as isize })
        } else {
            Err(IpcError::HwndOutOfRange)
        }
    }
}

pub open spec fn spec_decode_message(payload: Seq<u8>) -> Result<IpcMessage, IpcError> {
    if payload.len() == 0 {
        Err(IpcError::EmptyPayload)
    } else {
        let tag = payload[0];
        if tag == TAG_REGISTER_GUI {
            spec_decode_register_gui(payload)
        } else if tag == TAG_UNREGISTER_GUI {
            Ok(IpcMessage::UnregisterGui)
        } else if tag == TAG_SPIN_START {
            Ok(IpcMessage::SpinStart)
        } else if tag == TAG_SPIN_STOP {
            Ok(IpcMessage::SpinStop)
        } else if tag == TAG_SETTINGS_CHANGED {
            Ok(IpcMessage::SettingsChanged)
        } else {
            Err(IpcError::UnknownTag(tag))
        }
    }
}

/// A frame: the payload length as four little-endian bytes, then the payload.
pub open spec fn spec_encode_frame(payload: Seq<u8>) -> Seq<u8> {
    spec_u32_to_le_bytes(payload.len() as u32) + payload
}

proof fn lemma_hwnd_bits_roundtrip(hwnd: isize)
    ensures
        (spec_hwnd_bits(hwnd) as i64) == hwnd as i64,
{
    let x: i64 = hwnd as i64;
    assert(((x as u64) as i64) == x) by (bit_vector);
}

pub fn encode_message(message: &IpcMessage) -> (r: Vec<u8>)
    ensures
        r@ == spec_encode_message(*message),
{
    match message {
        IpcMessage::RegisterGui { pid, hwnd } => {
            let mut payload: Vec<u8> = Vec::with_capacity(REGISTER_GUI_PAYLOAD_LEN);
            payload.push(TAG_REGISTER_GUI);
            let mut pid_bytes = u32_to_le_bytes(*pid);
            payload.append(&mut pid_bytes);
            let wide: i64 = *hwnd as i64;
            let mut hwnd_bytes = u64_to_le_bytes(wide as u64);
            payload.append(&mut hwnd_bytes);
            assert(payload@ == seq![TAG_REGISTER_GUI] + spec_u32_to_le_bytes(*pid)
                + spec_u64_to_le_bytes(spec_hwnd_bits(*hwnd)));
            payload
        },
        IpcMessage::UnregisterGui => vec![TAG_UNREGISTER_GUI],
        IpcMessage::SpinStart => vec![TAG_SPIN_START],
        IpcMessage::SpinStop => vec![TAG_SPIN_STOP],
        IpcMessage::SettingsChanged => vec![TAG_SETTINGS_CHANGED],
    }
}

pub fn decode_message(payload: &[u8]) -> (r: Result<IpcMessage, IpcError>)
    ensures
        r == spec_decode_message(payload@),
{
    if payload.len() == 0 {
        return Err(IpcError::EmptyPayload);
    }
    let tag = payload[0];
    if tag == TAG_REGISTER_GUI {
        if payload.len() != REGISTER_GUI_PAYLOAD_LEN {
            return Err(IpcError::InvalidRegisterGuiLength);
        }
        let pid = u32_from_le_bytes(slice_subrange(payload, 1, 5));
        let bits = u64_from_le_bytes(slice_subrange(payload, 5, 13));
        let raw: i64 = bits as i64;
        if (isize::MIN as i64) <= raw && raw <= (isize::MAX as i64) {
            Ok(IpcMessage::RegisterGui { pid, hwnd: raw as isize })
        } else {
            Err(IpcError::HwndOutOfRange)
        }
    } else if tag == TAG_UNREGISTER_GUI {
        Ok(IpcMessage::UnregisterGui)
    } else if tag == TAG_SPIN_START {
        Ok(IpcMessage::SpinStart)
    } else if tag == TAG_SPIN_STOP {
        Ok(IpcMessage::SpinStop)
    } else if tag == TAG_SETTINGS_CHANGED {
        Ok(IpcMessage::SettingsChanged)
    } else {
        Err(IpcError::UnknownTag(tag))
    }
}

/// Decoding an encoded message gives the message back.
pub proof fn lemma_decode_encode_roundtrip(message: IpcMessage)
    ensures
        spec_decode_message(spec_encode_message(message)) == Ok::<IpcMessage, IpcError>(message),
{
    lemma_auto_spec_u32_to_from_le_bytes();
    lemma_auto_spec_u64_to_from_le_bytes();
    match message {
        IpcMessage::RegisterGui { pid, hwnd } => {
            let p = spec_encode_message(message);
            let a = spec_u32_to_le_bytes(pid);
            let b = spec_u64_to_le_bytes(spec_hwnd_bits(hwnd));
            assert(p.len() == 13);
            assert(p.subrange(1, 5) =~= a);
            assert(p.subrange(5, 13) =~= b);
            lemma_hwnd_bits_roundtrip(hwnd);
        },
        _ => {},
    }
}

/// Prefix `payload` with its length as a little-endian `u32`. A length beyond
/// `u32::MAX` wraps, as the wire format has no room for it.
pub fn encode_frame(payload: &[u8]) -> (r: Vec<u8>)
    ensures
        r@ == spec_encode_frame(payload@),
{
    let len: u32 = payload.len() as u32;
    let mut frame = u32_to_le_bytes(len);
    let mut i: usize = 0;
    while i < payload.len()
        invariant
            i <= payload.len(),
            frame@ == spec_u32_to_le_bytes(payload@.len() as u32) + payload@.subrange(0, i as int),
        decreases payload.len() - i,
    {
        frame.push(payload[i]);
        assert(payload@.subrange(0, i + 1) == payload@.subrange(0, i as int).push(payload@[i as int]));
        i += 1;
    }
    assert(payload@.subrange(0, payload.len() as int) == payload@);
    frame
}

/// The payload length announced by a frame header; oversized frames are refused.
pub fn frame_payload_len(header: &[u8]) -> (r: Result<usize, IpcError>)
    requires
        header@.len() == 4,
    ensures
        r == (if spec_u32_from_le_bytes(header@) as int > MAX_FRAME_PAYLOAD {
            Err::<usize, IpcError>(IpcError::FrameTooLarge(spec_u32_from_le_bytes(header@)))
        } else {
            Ok::<usize, IpcError>(spec_u32_from_le_bytes(header@) as usize)
        }),
{
    let len = u32_from_le_bytes(header);
    if len as usize > MAX_FRAME_PAYLOAD {
        Err(IpcError::FrameTooLarge(len))
    } else {
        Ok(len as usize)
    }
}

/// Reading a frame header back yields the length of the payload it was built for.
pub proof fn lemma_frame_header_roundtrip(payload: Seq<u8>)
    requires
        payload.len() <= u32::MAX,
    ensures
        spec_encode_frame(payload).len() == 4 + payload.len(),
        spec_u32_from_le_bytes(spec_encode_frame(payload).subrange(0, 4)) == payload.len(),
        spec_encode_frame(payload).subrange(4, 4 + payload.len() as int) == payload,
{
    lemma_auto_spec_u32_to_from_le_bytes();
    let h = spec_u32_to_le_bytes(payload.len() as u32);
    assert(spec_encode_frame(payload).subrange(0, 4) =~= h);
    assert(spec_encode_frame(payload).subrange(4, 4 + payload.len() as int) =~= payload);
}

/// The GUI session the tray host tracks after receiving `message`.
pub fn session_after_message(current: Option<GuiSession>, message: &IpcMessage) -> (r: Option<GuiSession>)
    ensures
        r == match *message {
            IpcMessage::RegisterGui { pid, hwnd } => Some(GuiSession { pid, hwnd }),
            IpcMessage::UnregisterGui => None,
            _ => current,
        },
{
    match message {
        IpcMessage::RegisterGui { pid, hwnd } => Some(GuiSession { pid: *pid, hwnd: *hwnd }),
        IpcMessage::UnregisterGui => None,
        _ => current,
    }
}

/// The frame that carries `message` to the tray host.
pub fn message_frame(message: &IpcMessage) -> (r: Vec<u8>)
    ensures
        r@ == spec_encode_frame(spec_encode_message(*message)),
{
    let payload = encode_message(message);
    encode_frame(&payload)
}

/// How many times to look for the tray host's pipe within `timeout_ms`, one
/// look per 50 ms, at least once.
pub fn connect_attempts(timeout_ms: u32) -> (r: u32)
    ensures
        r == (if timeout_ms / 50 == 0 {
            1
        } else {
            timeout_ms / 50
        }),
{
    let steps = timeout_ms / 50;
    if steps == 0 {
        1
    } else {
        steps
    }
}

/// How long to wait for the tray host's ready event: `timeout_ms`, at most
/// `TRAY_READY_WAIT_MS`.
pub fn tray_ready_wait_ms(timeout_ms: u32) -> (r: u32)
    ensures
        r == (if timeout_ms < TRAY_READY_WAIT_MS {
            timeout_ms
        } else {
            TRAY_READY_WAIT_MS
        }),
{
    if timeout_ms < TRAY_READY_WAIT_MS {
        timeout_ms
    } else {
        TRAY_READY_WAIT_MS
    }
}

/// Whether a wait on the ready event saw it set: `WAIT_OBJECT_0` or `WAIT_ABANDONED`.
pub fn ready_wait_signaled(wait_result: u32) -> (r: bool)
    ensures
        r == (wait_result == 0 || wait_result == 0x80),
{
    wait_result == 0 || wait_result == 0x80
}

} // verus!
