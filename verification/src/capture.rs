//! Force-capture of a USB device on macOS.
//!
//! `USBDeviceReEnumerate` with the capture option detaches all kernel drivers from a
//! device and brings it back without them; with the release option the drivers may
//! bind again. Both take a fixed sequence of system calls, each of which may fail, and
//! everything that they hand out has to be given back. A [`Capture`] says which call
//! comes next and what the outcome is; whoever drives it makes the calls.

use vstd::prelude::*;

use crate::text::push_hexadecimal;
use crate::wire::bits_of;

verus! {

/// The option of `USBDeviceReEnumerate` that detaches all kernel drivers, as
/// `IOKit/usb/IOUSBLib.h` defines it.
#[allow(non_upper_case_globals)]
pub const kUSBReEnumerateCaptureDeviceMask: u32 = 0x4000_0000;

/// The option of `USBDeviceReEnumerate` that gives a captured device back.
#[allow(non_upper_case_globals)]
pub const kUSBReEnumerateReleaseDeviceMask: u32 = 0x2000_0000;

/// The plug-in type of USB device user clients:
/// 9DC7B780-9EC0-11D4-A54F-000A27052861.
pub fn k_io_usb_device_user_client_type_id() -> (id: [u8; 16])
    ensures
        id@ == seq![
            0x9du8, 0xc7, 0xb7, 0x80, 0x9e, 0xc0, 0x11, 0xd4, 0xa5, 0x4f, 0x00, 0x0a, 0x27, 0x05,
            0x28, 0x61,
        ],
{
    let id: [u8; 16] = [
        0x9d, 0xc7, 0xb7, 0x80, 0x9e, 0xc0, 0x11, 0xd4, 0xa5, 0x4f, 0x00, 0x0a, 0x27, 0x05, 0x28,
        0x61,
    ];
    assert(id@ =~= seq![
        0x9du8, 0xc7, 0xb7, 0x80, 0x9e, 0xc0, 0x11, 0xd4, 0xa5, 0x4f, 0x00, 0x0a, 0x27, 0x05, 0x28,
        0x61,
    ]);
    id
}

/// The plug-in interface: C244E858-109C-11D4-91D4-0050E4C6426F.
pub fn k_io_cf_plug_in_interface_id() -> (id: [u8; 16])
    ensures
        id@ == seq![
            0xc2u8, 0x44, 0xe8, 0x58, 0x10, 0x9c, 0x11, 0xd4, 0x91, 0xd4, 0x00, 0x50, 0xe4, 0xc6,
            0x42, 0x6f,
        ],
{
    let id: [u8; 16] = [
        0xc2, 0x44, 0xe8, 0x58, 0x10, 0x9c, 0x11, 0xd4, 0x91, 0xd4, 0x00, 0x50, 0xe4, 0xc6, 0x42,
        0x6f,
    ];
    assert(id@ =~= seq![
        0xc2u8, 0x44, 0xe8, 0x58, 0x10, 0x9c, 0x11, 0xd4, 0x91, 0xd4, 0x00, 0x50, 0xe4, 0xc6, 0x42,
        0x6f,
    ]);
    id
}

/// The device interface of macOS 10.7.3 and later, which has every function up to
/// `USBDeviceReEnumerate`: 396104F7-943D-4893-90F1-69BD6CF5C2EB.
pub fn k_io_usb_device_interface_id_500() -> (id: [u8; 16])
    ensures
        id@ == seq![
            0x39u8, 0x61, 0x04, 0xf7, 0x94, 0x3d, 0x48, 0x93, 0x90, 0xf1, 0x69, 0xbd, 0x6c, 0xf5,
            0xc2, 0xeb,
        ],
{
    let id: [u8; 16] = [
        0x39, 0x61, 0x04, 0xf7, 0x94, 0x3d, 0x48, 0x93, 0x90, 0xf1, 0x69, 0xbd, 0x6c, 0xf5, 0xc2,
        0xeb,
    ];
    assert(id@ =~= seq![
        0x39u8, 0x61, 0x04, 0xf7, 0x94, 0x3d, 0x48, 0x93, 0x90, 0xf1, 0x69, 0xbd, 0x6c, 0xf5, 0xc2,
        0xeb,
    ]);
    id
}

/// Which call failed, and the code that it returned.
#[derive(Debug, Clone, Copy, PartialEq, Eq, Structural)]
pub enum CaptureError {
    /// The registry has no device with this entry id.
    NoService(u64),
    PlugIn(i32),
    QueryInterface(i32),
    OpenSeize(i32),
    ReEnumerate(i32),
}

/// The hexadecimal form of a code, with its prefix.
pub open spec fn code_text(code: i32) -> Seq<char> {
    "0x"@ + crate::text::hexadecimal(crate::wire::twos_complement(code) as nat)
}

fn push_code(s: &mut String, code: i32)
    ensures
        final(s)@ == old(s)@ + code_text(code),
{
    s.append("0x");
    push_hexadecimal(s, bits_of(code) as u64);
    assert(s@ =~= old(s)@ + code_text(code));
}

impl CaptureError {
    /// The sentence that describes the error.
    pub open spec fn text(self) -> Seq<char> {
        match self {
            CaptureError::NoService(id) => "no IOUSBDevice service found for registry_entry_id 0x"@
                + crate::text::hexadecimal(id as nat),
            CaptureError::PlugIn(code) => "IOCreatePlugInInterfaceForService failed: "@ + code_text(
                code,
            ),
            CaptureError::QueryInterface(code) => "QueryInterface failed: HRESULT "@ + code_text(
                code,
            ),
            CaptureError::OpenSeize(code) => "USBDeviceOpenSeize failed: "@ + code_text(code)
                + " (run as root?)"@,
            CaptureError::ReEnumerate(code) => "USBDeviceReEnumerate failed: "@ + code_text(code),
        }
    }

    /// A sentence that describes the error.
    pub fn message(&self) -> (s: String)
        ensures
            s@ == self.text(),
    {
        let mut s: String = String::new();
        match self {
            CaptureError::NoService(id) => {
                s.append("no IOUSBDevice service found for registry_entry_id 0x");
                push_hexadecimal(&mut s, *id);
            },
            CaptureError::PlugIn(code) => {
                s.append("IOCreatePlugInInterfaceForService failed: ");
                push_code(&mut s, *code);
            },
            CaptureError::QueryInterface(code) => {
                s.append("QueryInterface failed: HRESULT ");
                push_code(&mut s, *code);
            },
            CaptureError::OpenSeize(code) => {
                s.append("USBDeviceOpenSeize failed: ");
                push_code(&mut s, *code);
                s.append(" (run as root?)");
            },
            CaptureError::ReEnumerate(code) => {
                s.append("USBDeviceReEnumerate failed: ");
                push_code(&mut s, *code);
            },
        }
        assert(s@ =~= self.text());
        s
    }
}

/// The call that comes next.
#[derive(Debug, Clone, Copy, PartialEq, Eq)]
pub enum CaptureStep {
    /// Look the device up in the registry.
    FindService { registry_entry_id: u64 },
    /// Create the plug-in of a user client for the service.
    CreatePlugIn,
    /// Ask the plug-in for the device interface.
    QueryInterface,
    /// Give the plug-in back.
    ReleasePlugIn,
    /// Take the device from whoever has it.
    OpenSeize,
    /// Re-enumerate the device with these options.
    ReEnumerate { options: u32 },
    /// Close the device. It may be gone already: what this returns does not matter.
    Close,
    /// Give the device interface back.
    ReleaseDevice,
    /// Give the service back.
    ReleaseService,
    /// Nothing: this is the outcome.
    Done(Result<(), CaptureError>),
}

/// What a call returned: its code, zero for success, and whether it handed out what
/// it was asked for.
#[derive(Debug, Clone, Copy, PartialEq, Eq, Structural)]
pub struct CallResult {
    pub code: i32,
    pub present: bool,
}

impl CallResult {
    /// The call succeeded and handed out what it was asked for.
    pub open spec fn granted(self) -> bool {
        self.code == 0 && self.present
    }
}

/// How far a capture has come.
#[derive(Debug, Clone, Copy, PartialEq, Eq)]
pub enum CapturePhase {
    FindService,
    CreatePlugIn,
    QueryInterface,
    ReleasePlugIn { queried: CallResult },
    OpenSeize,
    ReEnumerate,
    Close { code: i32 },
    ReleaseDevice { outcome: Result<(), CaptureError> },
    ReleaseService { outcome: Result<(), CaptureError> },
    Done { outcome: Result<(), CaptureError> },
}

/// A re-enumeration of one device, in progress.
#[derive(Debug, Clone, Copy, PartialEq, Eq)]
pub struct Capture {
    pub registry_entry_id: u64,
    pub options: u32,
    pub phase: CapturePhase,
}

impl Capture {
    /// A re-enumeration that has not begun.
    pub open spec fn start(registry_entry_id: u64, options: u32) -> Capture {
        Capture { registry_entry_id, options, phase: CapturePhase::FindService }
    }

    /// The call that comes next.
    pub open spec fn step(self) -> CaptureStep {
        match self.phase {
            CapturePhase::FindService => CaptureStep::FindService {
                registry_entry_id: self.registry_entry_id,
            },
            CapturePhase::CreatePlugIn => CaptureStep::CreatePlugIn,
            CapturePhase::QueryInterface => CaptureStep::QueryInterface,
            CapturePhase::ReleasePlugIn { queried } => CaptureStep::ReleasePlugIn,
            CapturePhase::OpenSeize => CaptureStep::OpenSeize,
            CapturePhase::ReEnumerate => CaptureStep::ReEnumerate { options: self.options },
            CapturePhase::Close { code } => CaptureStep::Close,
            CapturePhase::ReleaseDevice { outcome } => CaptureStep::ReleaseDevice,
            CapturePhase::ReleaseService { outcome } => CaptureStep::ReleaseService,
            CapturePhase::Done { outcome } => CaptureStep::Done(outcome),
        }
    }

    /// What the capture is after the call that came next has returned `r`.
    pub open spec fn after(self, r: CallResult) -> Capture {
        let id = self.registry_entry_id;
        let phase = match self.phase {
            CapturePhase::FindService => if r.present {
                CapturePhase::CreatePlugIn
            } else {
                CapturePhase::Done { outcome: Err(CaptureError::NoService(id)) }
            },
            CapturePhase::CreatePlugIn => if r.granted() {
                CapturePhase::QueryInterface
            } else {
                CapturePhase::ReleaseService { outcome: Err(CaptureError::PlugIn(r.code)) }
            },
            CapturePhase::QueryInterface => CapturePhase::ReleasePlugIn { queried: r },
            CapturePhase::ReleasePlugIn { queried } => if queried.granted() {
                CapturePhase::OpenSeize
            } else {
                CapturePhase::ReleaseService {
                    outcome: Err(CaptureError::QueryInterface(queried.code)),
                }
            },
            CapturePhase::OpenSeize => if r.code == 0 {
                CapturePhase::ReEnumerate
            } else {
                CapturePhase::ReleaseDevice { outcome: Err(CaptureError::OpenSeize(r.code)) }
            },
            CapturePhase::ReEnumerate => CapturePhase::Close { code: r.code },
            CapturePhase::Close { code } => CapturePhase::ReleaseDevice {
                outcome: if code == 0 {
                    Ok(())
                } else {
                    Err(CaptureError::ReEnumerate(code))
                },
            },
            CapturePhase::ReleaseDevice { outcome } => CapturePhase::ReleaseService { outcome },
            CapturePhase::ReleaseService { outcome } => CapturePhase::Done { outcome },
            CapturePhase::Done { outcome } => CapturePhase::Done { outcome },
        };
        Capture { phase, ..self }
    }

    /// The call to make next.
    pub fn next_step(&self) -> (s: CaptureStep)
        ensures
            s == self.step(),
    {
        match self.phase {
            CapturePhase::FindService => CaptureStep::FindService {
                registry_entry_id: self.registry_entry_id,
            },
            CapturePhase::CreatePlugIn => CaptureStep::CreatePlugIn,
            CapturePhase::QueryInterface => CaptureStep::QueryInterface,
            CapturePhase::ReleasePlugIn { queried: _ } => CaptureStep::ReleasePlugIn,
            CapturePhase::OpenSeize => CaptureStep::OpenSeize,
            CapturePhase::ReEnumerate => CaptureStep::ReEnumerate { options: self.options },
            CapturePhase::Close { code: _ } => CaptureStep::Close,
            CapturePhase::ReleaseDevice { outcome: _ } => CaptureStep::ReleaseDevice,
            CapturePhase::ReleaseService { outcome: _ } => CaptureStep::ReleaseService,
            CapturePhase::Done { outcome } => CaptureStep::Done(outcome),
        }
    }

    /// The call that was to be made has returned `r`.
    pub fn advance(&mut self, r: CallResult)
        ensures
            *final(self) == old(self).after(r),
    {
        let id: u64 = self.registry_entry_id;
        let granted: bool = r.code == 0 && r.present;
        self.phase =
        match self.phase {
            CapturePhase::FindService => if r.present {
                CapturePhase::CreatePlugIn
            } else {
                CapturePhase::Done { outcome: Err(CaptureError::NoService(id)) }
            },
            CapturePhase::CreatePlugIn => if granted {
                CapturePhase::QueryInterface
            } else {
                CapturePhase::ReleaseService { outcome: Err(CaptureError::PlugIn(r.code)) }
            },
            CapturePhase::QueryInterface => CapturePhase::ReleasePlugIn { queried: r },
            CapturePhase::ReleasePlugIn { queried } => if queried.code == 0 && queried.present {
                CapturePhase::OpenSeize
            } else {
                CapturePhase::ReleaseService {
                    outcome: Err(CaptureError::QueryInterface(queried.code)),
                }
            },
            CapturePhase::OpenSeize => if r.code == 0 {
                CapturePhase::ReEnumerate
            } else {
                CapturePhase::ReleaseDevice { outcome: Err(CaptureError::OpenSeize(r.code)) }
            },
            CapturePhase::ReEnumerate => CapturePhase::Close { code: r.code },
            CapturePhase::Close { code } => if code == 0 {
                CapturePhase::ReleaseDevice { outcome: Ok(()) }
            } else {
                CapturePhase::ReleaseDevice { outcome: Err(CaptureError::ReEnumerate(code)) }
            },
            CapturePhase::ReleaseDevice { outcome } => CapturePhase::ReleaseService { outcome },
            CapturePhase::ReleaseService { outcome } => CapturePhase::Done { outcome },
            CapturePhase::Done { outcome } => CapturePhase::Done { outcome },
        };
    }

    /// What the capture holds now.
    pub open spec fn held(self) -> Held {
        match self.phase {
            CapturePhase::FindService => Held::none(),
            CapturePhase::CreatePlugIn => Held { service: true, ..Held::none() },
            CapturePhase::QueryInterface => Held { service: true, plug_in: true, ..Held::none() },
            CapturePhase::ReleasePlugIn { queried } => Held {
                service: true,
                plug_in: true,
                device: queried.granted(),
                seized: false,
            },
            CapturePhase::OpenSeize => Held { service: true, device: true, ..Held::none() },
            CapturePhase::ReEnumerate => Held { plug_in: false, ..Held::all() },
            CapturePhase::Close { code } => Held { plug_in: false, ..Held::all() },
            CapturePhase::ReleaseDevice { outcome } => Held {
                service: true,
                device: true,
                ..Held::none()
            },
            CapturePhase::ReleaseService { outcome } => Held { service: true, ..Held::none() },
            CapturePhase::Done { outcome } => Held::none(),
        }
    }
}

/// Detach all kernel drivers from the device with this registry entry id and
/// re-enumerate it in capture mode. Needs root.
pub fn reenumerate_with_capture(registry_entry_id: u64) -> (c: Capture)
    ensures
        c == Capture::start(registry_entry_id, kUSBReEnumerateCaptureDeviceMask),
        c.registry_entry_id == registry_entry_id,
        c.options == 0x4000_0000,
{
    reenumerate_with_options(registry_entry_id, kUSBReEnumerateCaptureDeviceMask)
}

/// Re-enumerate the device and give up its capture, so that kernel drivers may bind
/// again.
pub fn reenumerate_release(registry_entry_id: u64) -> (c: Capture)
    ensures
        c == Capture::start(registry_entry_id, kUSBReEnumerateReleaseDeviceMask),
        c.registry_entry_id == registry_entry_id,
        c.options == 0x2000_0000,
{
    reenumerate_with_options(registry_entry_id, kUSBReEnumerateReleaseDeviceMask)
}

/// Re-enumerate the device with `options`.
pub fn reenumerate_with_options(registry_entry_id: u64, options: u32) -> (c: Capture)
    ensures
        c == Capture::start(registry_entry_id, options),
{
    Capture { registry_entry_id, options, phase: CapturePhase::FindService }
}

/// What system calls have handed out and not got back.
pub struct Held {
    pub service: bool,
    pub plug_in: bool,
    pub device: bool,
    pub seized: bool,
}

impl Held {
    /// Nothing.
    pub open spec fn none() -> Held {
        Held { service: false, plug_in: false, device: false, seized: false }
    }

    /// All of it.
    pub open spec fn all() -> Held {
        Held { service: true, plug_in: true, device: true, seized: true }
    }

    /// What is held after the call `step` has returned `r`.
    pub open spec fn after(self, step: CaptureStep, r: CallResult) -> Held {
        match step {
            CaptureStep::FindService { registry_entry_id } => Held { service: r.present, ..self },
            CaptureStep::CreatePlugIn => Held { plug_in: r.granted(), ..self },
            CaptureStep::QueryInterface => Held { device: r.granted(), ..self },
            CaptureStep::ReleasePlugIn => Held { plug_in: false, ..self },
            CaptureStep::OpenSeize => Held { seized: r.code == 0, ..self },
            CaptureStep::ReEnumerate { options } => self,
            CaptureStep::Close => Held { seized: false, ..self },
            CaptureStep::ReleaseDevice => Held { device: false, ..self },
            CaptureStep::ReleaseService => Held { service: false, ..self },
            CaptureStep::Done(outcome) => self,
        }
    }

    /// The call `step` may be made: it uses only what is held, gives back only what is
    /// held, and asks for nothing that is held already.
    pub open spec fn permits(self, step: CaptureStep) -> bool {
        match step {
            CaptureStep::FindService { registry_entry_id } => self == Held::none(),
            CaptureStep::CreatePlugIn => self.service && !self.plug_in,
            CaptureStep::QueryInterface => self.plug_in && !self.device,
            CaptureStep::ReleasePlugIn => self.plug_in,
            CaptureStep::OpenSeize => self.device && !self.seized,
            CaptureStep::ReEnumerate { options } => self.device && self.seized,
            CaptureStep::Close => self.device && self.seized,
            CaptureStep::ReleaseDevice => self.device && !self.seized,
            CaptureStep::ReleaseService => self.service && !self.plug_in && !self.device,
            CaptureStep::Done(outcome) => self == Held::none(),
        }
    }
}

/// A capture starts by looking up its device, with nothing held.
pub proof fn capture_starts(registry_entry_id: u64, options: u32)
    ensures
        Capture::start(registry_entry_id, options).step() == (CaptureStep::FindService {
            registry_entry_id,
        }),
        Capture::start(registry_entry_id, options).held() == Held::none(),
{
}

/// Whatever the calls return, each call that comes next may be made with what is
/// held then, and when there is an outcome everything has been given back.
pub proof fn capture_gives_back(c: Capture, r: CallResult)
    ensures
        c.held().permits(c.step()),
        c.after(r).held() == c.held().after(c.step(), r),
        c.step() is Done ==> c.held() == Held::none() && c.after(r) == c,
{
}

/// What the system returns for each call of a re-enumeration.
pub struct Host {
    pub find: CallResult,
    pub plug_in: CallResult,
    pub query: CallResult,
    pub open: CallResult,
    pub reenumerate: CallResult,
    /// For the calls whose results do not matter.
    pub other: CallResult,
}

impl Host {
    /// What the system returns for `step`.
    pub open spec fn result(self, step: CaptureStep) -> CallResult {
        match step {
            CaptureStep::FindService { registry_entry_id } => self.find,
            CaptureStep::CreatePlugIn => self.plug_in,
            CaptureStep::QueryInterface => self.query,
            CaptureStep::OpenSeize => self.open,
            CaptureStep::ReEnumerate { options } => self.reenumerate,
            _ => self.other,
        }
    }

    /// The outcome: the first call that fails decides it.
    pub open spec fn outcome(self, registry_entry_id: u64) -> Result<(), CaptureError> {
        if !self.find.present {
            Err(CaptureError::NoService(registry_entry_id))
        } else if !self.plug_in.granted() {
            Err(CaptureError::PlugIn(self.plug_in.code))
        } else if !self.query.granted() {
            Err(CaptureError::QueryInterface(self.query.code))
        } else if self.open.code != 0 {
            Err(CaptureError::OpenSeize(self.open.code))
        } else if self.reenumerate.code != 0 {
            Err(CaptureError::ReEnumerate(self.reenumerate.code))
        } else {
            Ok(())
        }
    }

    /// The device is re-enumerated at all.
    pub open spec fn reaches_reenumerate(self) -> bool {
        self.find.present && self.plug_in.granted() && self.query.granted() && self.open.code == 0
    }
}

/// The capture after `n` calls, as `host` answers them.
pub open spec fn run(c: Capture, host: Host, n: nat) -> Capture
    decreases n,
{
    if n == 0 {
        c
    } else {
        let before = run(c, host, (n - 1) as nat);
        before.after(host.result(before.step()))
    }
}

/// Nine calls are enough for an outcome, and it is the one that the first failing call
/// decides.
pub proof fn capture_outcome(registry_entry_id: u64, options: u32, host: Host)
    ensures
        run(Capture::start(registry_entry_id, options), host, 9).step() == CaptureStep::Done(
            host.outcome(registry_entry_id),
        ),
        host.outcome(registry_entry_id) is Ok <==> {
            &&& host.find.present
            &&& host.plug_in.code == 0 && host.plug_in.present
            &&& host.query.code == 0 && host.query.present
            &&& host.open.code == 0
            &&& host.reenumerate.code == 0
        },
        !host.find.present ==> host.outcome(registry_entry_id) == Err::<(), CaptureError>(
            CaptureError::NoService(registry_entry_id),
        ),
        host.find.present && !(host.plug_in.code == 0 && host.plug_in.present) ==> host.outcome(
            registry_entry_id,
        ) == Err::<(), CaptureError>(CaptureError::PlugIn(host.plug_in.code)),
        host.find.present && host.plug_in.code == 0 && host.plug_in.present && !(host.query.code
            == 0 && host.query.present) ==> host.outcome(registry_entry_id) == Err::<
            (),
            CaptureError,
        >(CaptureError::QueryInterface(host.query.code)),
        host.find.present && host.plug_in.code == 0 && host.plug_in.present && host.query.code == 0
            && host.query.present && host.open.code != 0 ==> host.outcome(registry_entry_id)
            == Err::<(), CaptureError>(CaptureError::OpenSeize(host.open.code)),
        host.find.present && host.plug_in.code == 0 && host.plug_in.present && host.query.code == 0
            && host.query.present && host.open.code == 0 && host.reenumerate.code != 0
            ==> host.outcome(registry_entry_id) == Err::<(), CaptureError>(
            CaptureError::ReEnumerate(host.reenumerate.code),
        ),
{
    reveal_with_fuel(run, 10);
}

/// The device is re-enumerated, with the options asked for, if and only if every call
/// before that succeeds.
pub proof fn capture_reenumerates(registry_entry_id: u64, options: u32, host: Host)
    ensures
        host.reaches_reenumerate() <==> exists|n: nat|
            n < 9 && (#[trigger] run(
                Capture::start(registry_entry_id, options),
                host,
                n,
            )).step() is ReEnumerate,
        forall|n: nat|
            n < 9 && (#[trigger] run(
                Capture::start(registry_entry_id, options),
                host,
                n,
            )).step() is ReEnumerate ==> run(
                Capture::start(registry_entry_id, options),
                host,
                n,
            ).step()->options == options,
{
    reveal_with_fuel(run, 10);
    let c = Capture::start(registry_entry_id, options);
    if host.reaches_reenumerate() {
        assert(run(c, host, 5).step() is ReEnumerate);
    }
    assert forall|n: nat| n < 9 && (#[trigger] run(c, host, n)).step() is ReEnumerate implies run(
        c,
        host,
        n,
    ).step()->options == options && host.reaches_reenumerate() by {
        if n == 0 {
        } else if n == 1 {
        } else if n == 2 {
        } else if n == 3 {
        } else if n == 4 {
        } else if n == 5 {
        } else if n == 6 {
        } else if n == 7 {
        } else {
            assert(n == 8);
        }
    }
}

/// Each error names the call that failed and, in hexadecimal, its code or the device. A
/// code that is negative is shown as its bit pattern. That a device cannot be opened hints
/// at root.
pub proof fn capture_errors_name_calls(id: u64, code: i32)
    ensures
        CaptureError::NoService(id).text()
            == "no IOUSBDevice service found for registry_entry_id 0x"@
            + crate::text::hexadecimal(id as nat),
        CaptureError::PlugIn(code).text() == "IOCreatePlugInInterfaceForService failed: "@
            + code_text(code),
        CaptureError::QueryInterface(code).text() == "QueryInterface failed: HRESULT "@ + code_text(
            code,
        ),
        CaptureError::OpenSeize(code).text() == "USBDeviceOpenSeize failed: "@ + code_text(code)
            + " (run as root?)"@,
        CaptureError::ReEnumerate(code).text() == "USBDeviceReEnumerate failed: "@ + code_text(code),
        code_text(code) == "0x"@ + crate::text::hexadecimal((code as int % 0x1_0000_0000) as nat),
{
}

} // verus!
