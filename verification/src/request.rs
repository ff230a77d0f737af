//! The entry point of a scan: what the caller asks for, as texts, turned
//! into a plan that the workers can carry out.
//!
//! All of the input is checked here, before the first probe: a request that
//! is refused has caused no network traffic.

use crate::ip_range::{parse_outcome, IpRange};
use crate::ports::{effective, effective_ports, parse_ports, ports_outcome};
use crate::text::chars_of;
use vstd::prelude::*;

verus! {

/// The number of workers where the caller names none.
pub const DEFAULT_WORKERS: usize = 256;

/// The probing strategy that a scan uses.
#[derive(Clone, Copy, Debug, PartialEq, Eq, Structural)]
pub enum ScanKind {
    /// Connection-oriented probes.
    Tcp,
    /// Connectionless probes.
    Udp,
}

/// Why a request was refused. Each variant carries the complaint.
#[derive(Debug, PartialEq, Eq)]
pub enum InputError {
    /// The port list names something that is no port number.
    Ports(String),
    /// The address range is in none of the notations.
    Range(String),
    /// The scan type is neither `T` nor `U`.
    ScanType(String),
}

/// A request that passed all checks.
#[derive(Debug)]
pub struct ScanPlan {
    /// The addresses to scan.
    pub range: IpRange,
    /// The strategy to probe with.
    pub kind: ScanKind,
    /// The ports to probe on every address, in order.
    pub ports: Vec<u16>,
    /// The size of the worker pool.
    pub workers: usize,
}

/// The text `s` in upper case, as `str::to_uppercase` gives it.
pub uninterp spec fn uppercase(s: Seq<char>) -> Seq<char>;

/// The scan type that `s` selects: `T` for connection-oriented probes, `U`
/// for connectionless ones, in either case of the letter.
pub open spec fn scan_kind_of(s: Seq<char>) -> Option<ScanKind> {
    if s.len() == 1 && (s[0] == 'T' || s[0] == 't') {
        Some(ScanKind::Tcp)
    } else if s.len() == 1 && (s[0] == 'U' || s[0] == 'u') {
        Some(ScanKind::Udp)
    } else {
        None
    }
}

/// The complaint about a scan type that, written in upper case, reads
/// `upper`.
pub open spec fn invalid_scan_type_message(upper: Seq<char>) -> Seq<char> {
    "Invalid scan type '"@ + upper + "'. Use 'T' or 'U'."@
}

/// What a scan type stands for: the strategy, or the complaint. No scan type
/// at all stands for connection-oriented probes.
pub open spec fn scan_type_outcome(scan_type: Option<Seq<char>>) -> Result<ScanKind, Seq<char>> {
    match scan_type {
        None => Ok(ScanKind::Tcp),
        Some(s) => match scan_kind_of(s) {
            Some(kind) => Ok(kind),
            None => Err(invalid_scan_type_message(uppercase(s))),
        },
    }
}

/// What a port list stands for: the ports it names, `None` where there is no
/// list or it names no port, or the complaint.
pub open spec fn port_list_outcome(ports: Option<Seq<char>>) -> Result<
    Option<Seq<u16>>,
    Seq<char>,
> {
    match ports {
        None => Ok(None),
        Some(list) => ports_outcome(list),
    }
}

/// Calls `str::to_uppercase`. Trusted: the result depends on the text alone.
#[verifier::external_body]
fn to_uppercase(s: &str) -> (upper: String)
    ensures
        upper@ == uppercase(s@),
{
    s.to_uppercase()
}

/// The complaint about a scan type that, written in upper case, reads
/// `upper`.
pub fn invalid_scan_type(upper: &str) -> (message: String)
    ensures
        message@ == invalid_scan_type_message(upper@),
{
    let mut message = String::from_str("Invalid scan type '");
    message.append(upper);
    message.append("'. Use 'T' or 'U'.");
    message
}

/// Selects the probing strategy. `T` and `U` are accepted in either case,
/// and no scan type at all selects connection-oriented probes. Anything else
/// is refused, with a complaint that names it in upper case.
pub fn parse_scan_type(scan_type: Option<&str>) -> (r: Result<ScanKind, String>)
    ensures
        match scan_type_outcome(text_view(scan_type)) {
            Ok(kind) => r == Ok::<ScanKind, String>(kind),
            Err(message) => r is Err && r->Err_0@ == message,
        },
{
    match scan_type {
        None => Ok(ScanKind::Tcp),
        Some(s) => {
            let letters = chars_of(s);
            if letters.len() == 1 && (letters[0] == 'T' || letters[0] == 't') {
                Ok(ScanKind::Tcp)
            } else if letters.len() == 1 && (letters[0] == 'U' || letters[0] == 'u') {
                Ok(ScanKind::Udp)
            } else {
                let upper = to_uppercase(s);
                Err(invalid_scan_type(upper.as_str()))
            }
        },
    }
}

/// A refusal as a plain value: what was refused, and the complaint.
pub enum Refusal {
    Ports(Seq<char>),
    Range(Seq<char>),
    ScanType(Seq<char>),
}

/// A plan as a plain value.
pub struct Plan {
    pub range: IpRange,
    pub kind: ScanKind,
    pub ports: Seq<u16>,
    pub workers: usize,
}

impl View for InputError {
    type V = Refusal;

    open spec fn view(&self) -> Refusal {
        match *self {
            InputError::Ports(e) => Refusal::Ports(e@),
            InputError::Range(e) => Refusal::Range(e@),
            InputError::ScanType(e) => Refusal::ScanType(e@),
        }
    }
}

impl View for ScanPlan {
    type V = Plan;

    open spec fn view(&self) -> Plan {
        Plan { range: self.range, kind: self.kind, ports: self.ports@, workers: self.workers }
    }
}

/// What a request comes to: the plan, or the refusal.
///
/// The port list is read first, then the address range, then the scan type;
/// the first of them that is refused decides the refusal. Without a port
/// list, or with one that names no port, the plan holds the built-in list;
/// without a number of workers it holds [`DEFAULT_WORKERS`].
pub open spec fn request_outcome(
    ip_range: Seq<char>,
    scan_type: Option<Seq<char>>,
    ports: Option<Seq<char>>,
    workers: Option<usize>,
) -> Result<Plan, Refusal> {
    match port_list_outcome(ports) {
        Err(message) => Err(Refusal::Ports(message)),
        Ok(listed) => match parse_outcome(ip_range) {
            Err(message) => Err(Refusal::Range(message)),
            Ok(range) => match scan_type_outcome(scan_type) {
                Err(message) => Err(Refusal::ScanType(message)),
                Ok(kind) => Ok(
                    Plan {
                        range,
                        kind,
                        ports: effective(listed),
                        workers: match workers {
                            Some(n) => n,
                            None => DEFAULT_WORKERS,
                        },
                    },
                ),
            },
        },
    }
}

/// The view of a text that may be missing.
pub open spec fn text_view(text: Option<&str>) -> Option<Seq<char>> {
    match text {
        Some(s) => Some(s@),
        None => None,
    }
}

/// A scan type that is neither `T` nor `U`, in either case, is refused
/// whatever else is asked for: no request with it comes to a plan, so no
/// probe is made on its account.
pub proof fn lemma_unknown_scan_type_is_refused(
    ip_range: Seq<char>,
    scan_type: Seq<char>,
    ports: Option<Seq<char>>,
    workers: Option<usize>,
)
    requires
        scan_kind_of(scan_type) is None,
    ensures
        scan_type_outcome(Some(scan_type)) == Err::<ScanKind, Seq<char>>(
            invalid_scan_type_message(uppercase(scan_type)),
        ),
        request_outcome(ip_range, Some(scan_type), ports, workers) is Err,
{
}

/// Checks a request and turns it into a plan, as [`request_outcome`] says.
/// Nothing is probed here: a request that is refused has caused no traffic.
pub fn prepare_scan(
    ip_range: &str,
    scan_type: Option<&str>,
    ports: Option<&str>,
    workers: Option<usize>,
) -> (r: Result<ScanPlan, InputError>)
    ensures
        match r {
            Ok(plan) => plan.range.wf() && plan.ports.len() > 0 && request_outcome(
                ip_range@,
                text_view(scan_type),
                text_view(ports),
                workers,
            ) == Ok::<Plan, Refusal>(plan@),
            Err(e) => request_outcome(
                ip_range@,
                text_view(scan_type),
                text_view(ports),
                workers,
            ) == Err::<Plan, Refusal>(e@),
        },
{
    let listed = match ports {
        None => None,
        Some(list) => match parse_ports(list) {
            Ok(listed) => listed,
            Err(message) => {
                return Err(InputError::Ports(message));
            },
        },
    };
    let range = match IpRange::parse(ip_range) {
        Ok(range) => range,
        Err(message) => {
            return Err(InputError::Range(message));
        },
    };
    let kind = match parse_scan_type(scan_type) {
        Ok(kind) => kind,
        Err(message) => {
            return Err(InputError::ScanType(message));
        },
    };
    let workers = match workers {
        Some(n) => n,
        None => DEFAULT_WORKERS,
    };
    Ok(ScanPlan { range, kind, ports: effective_ports(listed), workers })
}

impl InputError {
    /// The complaint, whatever was refused.
    pub fn message(&self) -> (m: &str)
        ensures
            m@ == (match *self {
                InputError::Ports(e) => e@,
                InputError::Range(e) => e@,
                InputError::ScanType(e) => e@,
            }),
    {
        match self {
            InputError::Ports(e) => e.as_str(),
            InputError::Range(e) => e.as_str(),
            InputError::ScanType(e) => e.as_str(),
        }
    }
}

} // verus!
