//! What the `tm20` command line decides: its arguments, and the plan that a
//! run carries out. A dry run never opens a device: `status` and `id` plan
//! their request bytes, `debug` and `list` are not applicable. Delivery
//! writes through a [`ReplyReader`] and, when asked, waits for the printer
//! to report the job done under the exact requested ID.

use vstd::prelude::*;

use crate::command::Command as PrinterCommand;
use crate::document::Document;
use crate::encode::{encode, lemma_all_encode, spec_encode_commands};
use crate::error::{EncodeError, Error, FramingError, Result};
use crate::host::{
    ean13_page, ean13_page_is, hello, qr_page, qr_page_is, ruler, ruler_is, text_page, text_page_is,
};
use crate::identify::{InfoRequest, completion_id, encode_info, encode_process_id, spec_info_bytes};
use crate::reply::ReplyReader;
use crate::selftest::{
    Case, catalog, catalog_has, find, lemma_ruler_encodes, lemma_text_page_encodes, page_of,
    spec_catalog,
};
use crate::status::{StatusRequest, encode_recover, encode_request, spec_request_bytes};
use crate::text::{append, owned, same_text};
use crate::transport::Transport;

verus! {

/// The ID that a delivery asks the printer to echo when the job is done.
pub const PROCESS_ID: [u8; 4] = [0x74, 0x6d, 0x32, 0x30];

/// The real-time status requests that `status` sends, in order.
pub open spec fn status_requests() -> Seq<StatusRequest> {
    seq![
        StatusRequest::Printer,
        StatusRequest::OfflineCause,
        StatusRequest::ErrorCause,
        StatusRequest::RollPaper,
    ]
}

/// The identity requests that `id` sends, in order.
pub open spec fn info_requests() -> Seq<InfoRequest> {
    seq![
        InfoRequest::ModelId,
        InfoRequest::TypeId,
        InfoRequest::VersionId,
        InfoRequest::Firmware,
        InfoRequest::Manufacturer,
        InfoRequest::Name,
        InfoRequest::Serial,
        InfoRequest::Fonts,
    ]
}

pub fn status_request_list() -> (v: Vec<StatusRequest>)
    ensures
        v@ == status_requests(),
{
    let mut v: Vec<StatusRequest> = Vec::new();
    v.push(StatusRequest::Printer);
    v.push(StatusRequest::OfflineCause);
    v.push(StatusRequest::ErrorCause);
    v.push(StatusRequest::RollPaper);
    assert(v@ =~= status_requests());
    v
}

pub fn info_request_list() -> (v: Vec<InfoRequest>)
    ensures
        v@ == info_requests(),
{
    let mut v: Vec<InfoRequest> = Vec::new();
    v.push(InfoRequest::ModelId);
    v.push(InfoRequest::TypeId);
    v.push(InfoRequest::VersionId);
    v.push(InfoRequest::Firmware);
    v.push(InfoRequest::Manufacturer);
    v.push(InfoRequest::Name);
    v.push(InfoRequest::Serial);
    v.push(InfoRequest::Fonts);
    assert(v@ =~= info_requests());
    v
}

#[derive(Debug, Clone, PartialEq, Eq)]
pub enum Mode {
    Dry { wait: bool },
    Deliver { selector: Option<String>, wait: bool },
}

impl Mode {
    pub fn is_dry(&self) -> (r: bool)
        ensures
            r == (self is Dry),
    {
        match self {
            Mode::Dry { .. } => true,
            Mode::Deliver { .. } => false,
        }
    }
}

#[derive(Debug, Clone, PartialEq, Eq)]
pub enum Command {
    List,
    Debug,
    Hello,
    Text(String),
    Ruler,
    Status,
    Recover,
    Id,
    Qr(String),
    Ean13(String),
    TestList,
    TestAll,
    TestOne(String),
}

#[derive(Debug, Clone, PartialEq, Eq)]
pub struct Parsed {
    pub mode: Mode,
    pub command: Command,
}

/// Why the command line refused to run.
#[derive(Debug, Clone, PartialEq, Eq)]
pub enum CliError {
    SerialNeedsValue,
    UnknownOption(String),
    UnexpectedArgument(String),
    QrNeedsData,
    Ean13NeedsDigits,
    UnknownCommand(Option<String>),
    DryNotApplicable(&'static str),
    UnknownTest(String),
    Encode(EncodeError),
}

/// The text of `a` at `i`, or nothing past the end.
pub open spec fn arg(args: Seq<Seq<char>>, i: int) -> Option<Seq<char>> {
    if 0 <= i < args.len() {
        Some(args[i])
    } else {
        None
    }
}

/// The options before the first positional argument: where the positionals
/// start, whether scanning failed (`1`: `--serial` without a value, `2`: an
/// unknown option at the stop), the serial, `--dry`, and `--wait`.
pub open spec fn scan_options(
    args: Seq<Seq<char>>,
    i: int,
    serial: Option<Seq<char>>,
    dry: bool,
    wait: bool,
) -> (int, int, Option<Seq<char>>, bool, bool)
    decreases args.len() - i,
{
    if i < 0 || i >= args.len() {
        (i, 0, serial, dry, wait)
    } else if args[i] == "--serial"@ {
        if i + 1 < args.len() {
            scan_options(args, i + 2, Some(args[i + 1]), dry, wait)
        } else {
            (i, 1, serial, dry, wait)
        }
    } else if args[i] == "--dry"@ {
        scan_options(args, i + 1, serial, true, wait)
    } else if args[i] == "--wait"@ {
        scan_options(args, i + 1, serial, dry, true)
    } else if args[i].len() > 0 && args[i][0] == '-' {
        (i, 2, serial, dry, wait)
    } else {
        (i, 0, serial, dry, wait)
    }
}

/// `e` is the refusal of an extra positional argument `extra`, if any.
pub open spec fn extra_refused(extra: Option<Seq<char>>, e: CliError) -> bool {
    extra matches Some(a) && e matches CliError::UnexpectedArgument(s) && s@ == a
}

/// `r` is what the positional arguments `rest` parse to.
pub open spec fn command_result(rest: Seq<Seq<char>>, r: core::result::Result<Command, CliError>) -> bool {
    let word = arg(rest, 0);
    let second = arg(rest, 1);
    let third = arg(rest, 2);
    if word is None {
        r == Err::<Command, CliError>(CliError::UnknownCommand(None))
    } else {
        let w = word->Some_0;
        if w == "list"@ {
            no_argument(second, r, Command::List)
        } else if w == "debug"@ {
            no_argument(second, r, Command::Debug)
        } else if w == "hello"@ {
            no_argument(second, r, Command::Hello)
        } else if w == "ruler"@ {
            no_argument(second, r, Command::Ruler)
        } else if w == "status"@ {
            no_argument(second, r, Command::Status)
        } else if w == "recover"@ {
            no_argument(second, r, Command::Recover)
        } else if w == "id"@ {
            no_argument(second, r, Command::Id)
        } else if w == "text"@ {
            if third is Some {
                r matches Err(e) && extra_refused(third, e)
            } else {
                r matches Ok(Command::Text(t)) && t@ == match second {
                    Some(s) => s,
                    None => Seq::<char>::empty(),
                }
            }
        } else if w == "qr"@ {
            if second is None {
                r == Err::<Command, CliError>(CliError::QrNeedsData)
            } else if third is Some {
                r matches Err(e) && extra_refused(third, e)
            } else {
                r matches Ok(Command::Qr(d)) && d@ == second->Some_0
            }
        } else if w == "ean13"@ {
            if second is None {
                r == Err::<Command, CliError>(CliError::Ean13NeedsDigits)
            } else if third is Some {
                r matches Err(e) && extra_refused(third, e)
            } else {
                r matches Ok(Command::Ean13(d)) && d@ == second->Some_0
            }
        } else if w == "test"@ {
            if second is None {
                r == Ok::<Command, CliError>(Command::TestList)
            } else if third is Some {
                r matches Err(e) && extra_refused(third, e)
            } else if second->Some_0 == "all"@ {
                r == Ok::<Command, CliError>(Command::TestAll)
            } else {
                r matches Ok(Command::TestOne(id)) && id@ == second->Some_0
            }
        } else {
            r matches Err(CliError::UnknownCommand(Some(c))) && c@ == w
        }
    }
}

/// A command that takes no argument: `c`, unless there is a second word.
pub open spec fn no_argument(
    second: Option<Seq<char>>,
    r: core::result::Result<Command, CliError>,
    c: Command,
) -> bool {
    if second is Some {
        r matches Err(e) && extra_refused(second, e)
    } else {
        r == Ok::<Command, CliError>(c)
    }
}

/// `r` is what the arguments `args` parse to.
pub open spec fn parse_result(args: Seq<Seq<char>>, r: core::result::Result<Parsed, CliError>) -> bool {
    let (stop, status, serial, dry, wait) = scan_options(args, 0, None, false, false);
    if status == 1 {
        r == Err::<Parsed, CliError>(CliError::SerialNeedsValue)
    } else if status == 2 {
        r matches Err(CliError::UnknownOption(o)) && o@ == args[stop]
    } else {
        &&& r is Ok ==> (if dry {
            r->Ok_0.mode == Mode::Dry { wait }
        } else {
            r->Ok_0.mode matches Mode::Deliver { selector, wait: w } && w == wait && match (
                selector,
                serial,
            ) {
                (None, None) => true,
                (Some(s), Some(t)) => s@ == t,
                _ => false,
            }
        })
        &&& command_result(
            args.skip(stop),
            match r {
                Ok(p) => Ok(p.command),
                Err(e) => Err(e),
            },
        )
    }
}

/// The argument texts.
pub open spec fn texts(args: Seq<&str>) -> Seq<Seq<char>> {
    args.map_values(|a: &str| a@)
}

fn refuse_extra(extra: Option<&str>) -> (r: core::result::Result<(), CliError>)
    ensures
        extra is None ==> r is Ok,
        extra matches Some(a) ==> (r matches Err(e) && extra_refused(Some(a@), e)),
{
    match extra {
        Some(a) => Err(CliError::UnexpectedArgument(owned(a))),
        None => Ok(()),
    }
}

fn at<'a>(args: &[&'a str], i: usize) -> (r: Option<&'a str>)
    ensures
        match r {
            Some(s) => arg(texts(args@), i as int) == Some(s@),
            None => arg(texts(args@), i as int) is None,
        },
{
    if i < args.len() {
        Some(args[i])
    } else {
        None
    }
}

fn parse_command(args: &[&str], start: usize) -> (r: core::result::Result<Command, CliError>)
    requires
        start <= args@.len(),
    ensures
        command_result(texts(args@).skip(start as int), r),
{
    let ghost rest = texts(args@).skip(start as int);
    let word = match at(args, start) {
        Some(w) => w,
        None => {
            assert(arg(rest, 0) is None);
            return Err(CliError::UnknownCommand(None));
        },
    };
    let second = if start < args.len() {
        at(args, start + 1)
    } else {
        None
    };
    let third = if start + 1 < args.len() {
        at(args, start + 2)
    } else {
        None
    };
    proof {
        assert(arg(rest, 0) == Some(word@));
        assert(arg(rest, 1) == match second {
            Some(s) => Some(s@),
            None => None::<Seq<char>>,
        });
        assert(arg(rest, 2) == match third {
            Some(s) => Some(s@),
            None => None::<Seq<char>>,
        });
    }
    if same_text(word, "list") {
        refuse_extra(second)?;
        return Ok(Command::List);
    }
    if same_text(word, "debug") {
        refuse_extra(second)?;
        return Ok(Command::Debug);
    }
    if same_text(word, "hello") {
        refuse_extra(second)?;
        return Ok(Command::Hello);
    }
    if same_text(word, "ruler") {
        refuse_extra(second)?;
        return Ok(Command::Ruler);
    }
    if same_text(word, "status") {
        refuse_extra(second)?;
        return Ok(Command::Status);
    }
    if same_text(word, "recover") {
        refuse_extra(second)?;
        return Ok(Command::Recover);
    }
    if same_text(word, "id") {
        refuse_extra(second)?;
        return Ok(Command::Id);
    }
    if same_text(word, "text") {
        refuse_extra(third)?;
        let text = match second {
            Some(s) => owned(s),
            None => String::new(),
        };
        return Ok(Command::Text(text));
    }
    if same_text(word, "qr") {
        let data = match second {
            Some(s) => s,
            None => {
                return Err(CliError::QrNeedsData);
            },
        };
        refuse_extra(third)?;
        return Ok(Command::Qr(owned(data)));
    }
    if same_text(word, "ean13") {
        let data = match second {
            Some(s) => s,
            None => {
                return Err(CliError::Ean13NeedsDigits);
            },
        };
        refuse_extra(third)?;
        return Ok(Command::Ean13(owned(data)));
    }
    if same_text(word, "test") {
        let id = match second {
            Some(s) => s,
            None => {
                return Ok(Command::TestList);
            },
        };
        refuse_extra(third)?;
        if same_text(id, "all") {
            return Ok(Command::TestAll);
        }
        return Ok(Command::TestOne(owned(id)));
    }
    Err(CliError::UnknownCommand(Some(owned(word))))
}

/// Parse the command line: options first, then one command and its
/// arguments.
pub fn parse(args: &[&str]) -> (r: core::result::Result<Parsed, CliError>)
    ensures
        parse_result(texts(args@), r),
{
    let ghost a = texts(args@);
    let mut serial: Option<&str> = None;
    let mut dry = false;
    let mut wait = false;
    let mut i: usize = 0;
    proof {
        reveal_strlit("--serial");
        reveal_strlit("--dry");
        reveal_strlit("--wait");
    }
    let mut done = false;
    while i < args.len() && !done
        invariant
            i <= args@.len(),
            a == texts(args@),
            scan_options(a, 0, None, false, false) == scan_options(
                a,
                i as int,
                match serial {
                    Some(s) => Some(s@),
                    None => None::<Seq<char>>,
                },
                dry,
                wait,
            ),
            done ==> scan_options(
                a,
                i as int,
                match serial {
                    Some(s) => Some(s@),
                    None => None::<Seq<char>>,
                },
                dry,
                wait,
            ) == (
                i as int,
                0int,
                match serial {
                    Some(s) => Some(s@),
                    None => None::<Seq<char>>,
                },
                dry,
                wait,
            ),
        decreases args@.len() - i, if done { 0int } else { 1int },
    {
        let word = args[i];
        assert(a[i as int] == word@);
        if same_text(word, "--serial") {
            if i + 1 < args.len() {
                assert(a[i + 1] == args@[i + 1]@);
                serial = Some(args[i + 1]);
                i = i + 2;
            } else {
                return Err(CliError::SerialNeedsValue);
            }
        } else if same_text(word, "--dry") {
            dry = true;
            i = i + 1;
        } else if same_text(word, "--wait") {
            wait = true;
            i = i + 1;
        } else if word.unicode_len() > 0 && word.get_char(0) == '-' {
            return Err(CliError::UnknownOption(owned(word)));
        } else {
            done = true;
        }
    }
    let mode = if dry {
        Mode::Dry { wait }
    } else {
        Mode::Deliver {
            selector: match serial {
                Some(s) => Some(owned(s)),
                None => None,
            },
            wait,
        }
    };
    let command = parse_command(args, i)?;
    Ok(Parsed { mode, command })
}

impl CliError {
    /// The sentence the command line prints for this refusal.
    pub fn message(&self) -> (m: String)
        ensures
            match self {
                CliError::SerialNeedsValue => m@ == "--serial needs a value"@,
                CliError::UnknownOption(o) => m@ == "unknown option "@ + o@,
                CliError::UnexpectedArgument(a) => m@ == "unexpected argument "@ + a@,
                CliError::QrNeedsData => m@ == "qr needs data"@,
                CliError::Ean13NeedsDigits => m@ == "ean13 needs digits"@,
                CliError::UnknownCommand(None) => m@ == "unknown command"@,
                CliError::UnknownCommand(Some(c)) => m@ == "unknown command "@ + c@,
                CliError::DryNotApplicable(what) => m@ == "dry-run is not applicable to "@ + what@,
                CliError::UnknownTest(id) => m@ == "unknown test "@ + id@,
                CliError::Encode(_) => m@ == "the page does not encode"@,
            },
    {
        match self {
            CliError::SerialNeedsValue => owned("--serial needs a value"),
            CliError::UnknownOption(o) => {
                let mut m = owned("unknown option ");
                append(&mut m, o.as_str());
                m
            },
            CliError::UnexpectedArgument(a) => {
                let mut m = owned("unexpected argument ");
                append(&mut m, a.as_str());
                m
            },
            CliError::QrNeedsData => owned("qr needs data"),
            CliError::Ean13NeedsDigits => owned("ean13 needs digits"),
            CliError::UnknownCommand(None) => owned("unknown command"),
            CliError::UnknownCommand(Some(c)) => {
                let mut m = owned("unknown command ");
                append(&mut m, c.as_str());
                m
            },
            CliError::DryNotApplicable(what) => {
                let mut m = owned("dry-run is not applicable to ");
                append(&mut m, what);
                m
            },
            CliError::UnknownTest(id) => {
                let mut m = owned("unknown test ");
                append(&mut m, id.as_str());
                m
            },
            CliError::Encode(_) => owned("the page does not encode"),
        }
    }
}

/// One print job: an optional note for the operator, and its bytes.
#[derive(Debug, Clone, PartialEq, Eq)]
pub struct Job {
    pub note: Option<String>,
    pub bytes: Vec<u8>,
}

/// What a run does once the arguments are understood.
#[derive(Debug, Clone, PartialEq, Eq)]
pub enum Plan {
    /// List the USB devices, marking the printer.
    ListUsb,
    /// Open the printer and report its endpoints and port status.
    Debug { selector: Option<String> },
    /// List the test cases.
    TestList,
    /// Print these byte chunks as hex, one line group each; touch no device.
    Dump(Vec<Vec<u8>>),
    /// Ask the printer for each real-time status.
    Status { selector: Option<String> },
    /// Ask the printer for each identity field.
    Identify { selector: Option<String> },
    /// Send the jobs in order, each followed by a completion wait if asked.
    Deliver { selector: Option<String>, wait: bool, jobs: Vec<Job> },
}

/// The bytes of each chunk.
pub open spec fn chunk_views(v: Seq<Vec<u8>>) -> Seq<Seq<u8>> {
    v.map_values(|c: Vec<u8>| c@)
}

/// The bytes of each job.
pub open spec fn job_bytes(v: Seq<Job>) -> Seq<Seq<u8>> {
    v.map_values(|j: Job| j.bytes@)
}

/// The completion request for the delivery's process ID.
pub open spec fn completion_request() -> Seq<u8> {
    seq![0x1du8, 0x28u8, 0x48u8, 6u8, 0u8, 48u8, 48u8, 0x74u8, 0x6du8, 0x32u8, 0x30u8]
}

/// The same optional text.
pub open spec fn same_selector(a: Option<String>, b: Option<String>) -> bool {
    match (a, b) {
        (None, None) => true,
        (Some(x), Some(y)) => x@ == y@,
        _ => false,
    }
}

/// `p` sends the jobs `jobs`: dumped as hex in a dry run, each followed by
/// the completion request when waiting; delivered to the selected printer
/// otherwise.
pub open spec fn emits(mode: Mode, jobs: Seq<Seq<u8>>, p: Plan) -> bool {
    match mode {
        Mode::Dry { wait } => p matches Plan::Dump(chunks) && chunk_views(chunks@) == if wait {
            Seq::new(2 * jobs.len(), |i: int| if i % 2 == 0 { jobs[i / 2] } else { completion_request() })
        } else {
            jobs
        },
        Mode::Deliver { selector, wait } => p matches Plan::Deliver { selector: s, wait: w, jobs: js }
            && same_selector(s, selector) && w == wait && job_bytes(js@) == jobs,
    }
}

fn copy_selector(s: &Option<String>) -> (r: Option<String>)
    ensures
        same_selector(r, *s),
{
    match s {
        Some(x) => Some(owned(x.as_str())),
        None => None,
    }
}

fn emit(mode: &Mode, jobs: Vec<Job>) -> (p: Plan)
    ensures
        emits(*mode, job_bytes(jobs@), p),
{
    match mode {
        Mode::Dry { wait } => {
            let mut chunks: Vec<Vec<u8>> = Vec::new();
            let mut i: usize = 0;
            while i < jobs.len()
                invariant
                    i <= jobs@.len(),
                    chunks@.len() == if *wait { 2 * i } else { i as int },
                    forall|k: int|
                        0 <= k < chunks@.len() ==> (#[trigger] chunks@[k])@ == if *wait {
                            if k % 2 == 0 {
                                jobs@[k / 2].bytes@
                            } else {
                                completion_request()
                            }
                        } else {
                            jobs@[k].bytes@
                        },
                decreases jobs@.len() - i,
            {
                chunks.push(crate::bytes::copy_bytes(jobs[i].bytes.as_slice()));
                if *wait {
                    let done = encode_process_id(PROCESS_ID);
                    chunks.push(crate::bytes::copy_bytes(&done));
                }
                i = i + 1;
            }
            let ghost want = if *wait {
                Seq::new(2 * jobs@.len(), |i: int| if i % 2 == 0 { job_bytes(jobs@)[i / 2] } else { completion_request() })
            } else {
                job_bytes(jobs@)
            };
            assert(chunk_views(chunks@) =~= want);
            Plan::Dump(chunks)
        },
        Mode::Deliver { selector, wait } => {
            Plan::Deliver { selector: copy_selector(selector), wait: *wait, jobs }
        },
    }
}

fn one_job(bytes: Vec<u8>, note: Option<String>) -> (v: Vec<Job>)
    ensures
        job_bytes(v@) == seq![bytes@],
{
    let mut v: Vec<Job> = Vec::new();
    v.push(Job { note, bytes });
    assert(job_bytes(v@) =~= seq![bytes@]);
    v
}

/// `b` is the encoding of a page that `page` describes.
pub open spec fn encodes_page(b: Seq<u8>, page: spec_fn(Seq<PrinterCommand>) -> bool) -> bool {
    exists|d: Seq<PrinterCommand>| page(d) && spec_encode_commands(d) == Ok::<Seq<u8>, EncodeError>(b)
}

/// Encode a page and plan it as one job.
fn emit_doc(mode: &Mode, doc: &Document, note: Option<String>) -> (r: core::result::Result<Plan, CliError>)
    ensures
        spec_encode_commands(doc@) matches Err(e) ==> r == Err::<Plan, CliError>(CliError::Encode(e)),
        spec_encode_commands(doc@) matches Ok(b) ==> (r matches Ok(p) && emits(*mode, seq![b], p)),
{
    match encode(doc) {
        Ok(bytes) => Ok(emit(mode, one_job(bytes, note))),
        Err(e) => Err(CliError::Encode(e)),
    }
}

/// The status request bytes, one chunk per request.
pub open spec fn planned_status() -> Seq<Seq<u8>> {
    status_requests().map_values(|r: StatusRequest| spec_request_bytes(r))
}

/// The identity request bytes, one chunk per request.
pub open spec fn planned_info() -> Seq<Seq<u8>> {
    info_requests().map_values(|r: InfoRequest| spec_info_bytes(r))
}

fn status_chunks() -> (v: Vec<Vec<u8>>)
    ensures
        chunk_views(v@) == planned_status(),
{
    let reqs = status_request_list();
    let mut v: Vec<Vec<u8>> = Vec::new();
    let mut i: usize = 0;
    while i < reqs.len()
        invariant
            reqs@ == status_requests(),
            i <= reqs@.len(),
            reqs@.len() == 4,
            planned_status().len() == 4,
            v@.len() == i,
            chunk_views(v@) == planned_status().take(i as int),
        decreases reqs@.len() - i,
    {
        let ghost before = v@;
        v.push(encode_request(reqs[i]));
        proof {
            assert forall|k: int| 0 <= k <= i implies #[trigger] chunk_views(v@)[k]
                == planned_status().take(i + 1)[k] by {
                if k < i {
                    assert(v@[k] == before[k]);
                    assert(chunk_views(before)[k] == planned_status().take(i as int)[k]);
                }
            }
        }
        i = i + 1;
        assert(chunk_views(v@) =~= planned_status().take(i as int));
    }
    assert(planned_status().take(i as int) =~= planned_status());
    v
}

fn info_chunks() -> (v: Vec<Vec<u8>>)
    ensures
        chunk_views(v@) == planned_info(),
{
    let reqs = info_request_list();
    let mut v: Vec<Vec<u8>> = Vec::new();
    let mut i: usize = 0;
    while i < reqs.len()
        invariant
            reqs@ == info_requests(),
            i <= reqs@.len(),
            reqs@.len() == 8,
            planned_info().len() == 8,
            v@.len() == i,
            chunk_views(v@) == planned_info().take(i as int),
        decreases reqs@.len() - i,
    {
        let b = encode_info(reqs[i]);
        let ghost before = v@;
        v.push(crate::bytes::copy_bytes(&b));
        proof {
            assert forall|k: int| 0 <= k <= i implies #[trigger] chunk_views(v@)[k]
                == planned_info().take(i + 1)[k] by {
                if k < i {
                    assert(v@[k] == before[k]);
                    assert(chunk_views(before)[k] == planned_info().take(i as int)[k]);
                }
            }
        }
        i = i + 1;
        assert(chunk_views(v@) =~= planned_info().take(i as int));
    }
    assert(planned_info().take(i as int) =~= planned_info());
    v
}

fn concat(chunks: Vec<Vec<u8>>) -> (v: Vec<u8>)
    ensures
        v@ == chunk_views(chunks@).flatten(),
{
    let mut v: Vec<u8> = Vec::new();
    let mut i: usize = 0;
    while i < chunks.len()
        invariant
            i <= chunks@.len(),
            v@ == chunk_views(chunks@).take(i as int).flatten(),
        decreases chunks@.len() - i,
    {
        crate::bytes::push_slice(&mut v, chunks[i].as_slice());
        proof {
            let c = chunk_views(chunks@);
            assert(c.take(i + 1) =~= c.take(i as int).push(c[i as int]));
            c.take(i as int).lemma_flatten_push(c[i as int]);
        }
        i = i + 1;
    }
    assert(chunk_views(chunks@).take(i as int) =~= chunk_views(chunks@));
    v
}

/// The bytes that a dry `status` plans: every status request in order.
pub fn planned_status_bytes() -> (v: Vec<u8>)
    ensures
        v@ == planned_status().flatten(),
{
    concat(status_chunks())
}

/// The bytes that a dry `id` plans: every identity request in order.
pub fn planned_id_bytes() -> (v: Vec<u8>)
    ensures
        v@ == planned_info().flatten(),
{
    concat(info_chunks())
}

/// `r` plans the encoding of a page that `page` describes, as one job.
pub open spec fn page_emitted(
    mode: Mode,
    r: core::result::Result<Plan, CliError>,
    page: spec_fn(Seq<PrinterCommand>) -> bool,
) -> bool {
    r matches Ok(p) && exists|b: Seq<u8>| encodes_page(b, page) && emits(mode, seq![b], p)
}

/// `r` plans a page that `page` describes, or reports that it does not
/// encode.
pub open spec fn page_planned(
    mode: Mode,
    r: core::result::Result<Plan, CliError>,
    page: spec_fn(Seq<PrinterCommand>) -> bool,
) -> bool {
    ||| r matches Err(CliError::Encode(_))
    ||| page_emitted(mode, r, page)
}

/// `b` is the encoding of the page that the case `id` prints.
pub open spec fn case_bytes(id: Seq<char>, b: Seq<u8>) -> bool {
    exists|d: Seq<PrinterCommand>|
        page_of(id, d) && spec_encode_commands(d) == Ok::<Seq<u8>, EncodeError>(b)
}

/// The cases that `test all` prints, in catalog order.
pub open spec fn in_all_cases(cases: Seq<Case>) -> Seq<Case>
    decreases cases.len(),
{
    if cases.len() == 0 {
        Seq::empty()
    } else if cases.last().in_all {
        in_all_cases(cases.drop_last()).push(cases.last())
    } else {
        in_all_cases(cases.drop_last())
    }
}

/// `jobs` are the pages of the cases that `test all` prints, one job each, in
/// catalog order.
pub open spec fn catalog_jobs(jobs: Seq<Seq<u8>>) -> bool {
    let cases = in_all_cases(spec_catalog());
    &&& jobs.len() == cases.len()
    &&& forall|k: int| 0 <= k < jobs.len() ==> case_bytes(cases[k].id@, #[trigger] jobs[k])
}

/// The selector of a delivering run.
pub open spec fn selector_of(mode: Mode) -> Option<String> {
    match mode {
        Mode::Deliver { selector, .. } => selector,
        Mode::Dry { .. } => None,
    }
}

/// What a parsed command line plans.
pub open spec fn plan_result(p: Parsed, r: core::result::Result<Plan, CliError>) -> bool {
    let dry = p.mode is Dry;
    match p.command {
        Command::List => if dry {
            r == Err::<Plan, CliError>(CliError::DryNotApplicable("list"))
        } else {
            r == Ok::<Plan, CliError>(Plan::ListUsb)
        },
        Command::Debug => if dry {
            r == Err::<Plan, CliError>(CliError::DryNotApplicable("debug"))
        } else {
            r matches Ok(Plan::Debug { selector }) && same_selector(selector, selector_of(p.mode))
        },
        Command::Status => if dry {
            r matches Ok(Plan::Dump(c)) && chunk_views(c@) == planned_status()
        } else {
            r matches Ok(Plan::Status { selector }) && same_selector(selector, selector_of(p.mode))
        },
        Command::Id => if dry {
            r matches Ok(Plan::Dump(c)) && chunk_views(c@) == planned_info()
        } else {
            r matches Ok(Plan::Identify { selector }) && same_selector(
                selector,
                selector_of(p.mode),
            )
        },
        Command::Hello => page_emitted(
            p.mode,
            r,
            |d: Seq<PrinterCommand>| text_page_is(d, "SYSTEM ONLINE"@),
        ),
        Command::Text(t) => page_emitted(p.mode, r, |d: Seq<PrinterCommand>| text_page_is(d, t@)),
        Command::Ruler => page_emitted(p.mode, r, |d: Seq<PrinterCommand>| ruler_is(d)),
        Command::Qr(data) => page_planned(p.mode, r, |d: Seq<PrinterCommand>| qr_page_is(d, data@)),
        Command::Ean13(digits) => page_planned(
            p.mode,
            r,
            |d: Seq<PrinterCommand>| ean13_page_is(d, digits@),
        ),
        Command::Recover => r matches Ok(plan) && emits(p.mode, seq![seq![0x10u8, 0x05u8, 2u8]], plan),
        Command::TestList => r == Ok::<Plan, CliError>(Plan::TestList),
        Command::TestAll => r matches Ok(plan) && exists|jobs: Seq<Seq<u8>>|
            catalog_jobs(jobs) && #[trigger] emits(p.mode, jobs, plan),
        Command::TestOne(id) => if !catalog_has(id@) {
            r matches Err(CliError::UnknownTest(t)) && t@ == id@
        } else {
            r matches Ok(plan) && exists|b: Seq<u8>|
                case_bytes(id@, b) && #[trigger] emits(p.mode, seq![b], plan)
        },
    }
}

/// The parts, one after another.
pub open spec fn joined(parts: Seq<&str>) -> Seq<char>
    decreases parts.len(),
{
    if parts.len() == 0 {
        Seq::empty()
    } else {
        joined(parts.drop_last()) + parts.last()@
    }
}

fn note(parts: &[&str]) -> (s: String)
    ensures
        s@ == joined(parts@),
{
    let mut s = String::new();
    let mut i: usize = 0;
    while i < parts.len()
        invariant
            i <= parts@.len(),
            s@ == joined(parts@.take(i as int)),
        decreases parts@.len() - i,
    {
        append(&mut s, parts[i]);
        assert(parts@.take(i + 1).drop_last() =~= parts@.take(i as int));
        i = i + 1;
    }
    assert(parts@.take(parts@.len() as int) =~= parts@);
    s
}

fn all_jobs() -> (r: core::result::Result<Vec<Job>, CliError>)
    ensures
        r matches Ok(v) && catalog_jobs(job_bytes(v@)),
{
    let cases = catalog();
    let mut jobs: Vec<Job> = Vec::new();
    let mut i: usize = 0;
    while i < cases.len()
        invariant
            cases@ == spec_catalog(),
            i <= cases@.len(),
            job_bytes(jobs@).len() == in_all_cases(cases@.take(i as int)).len(),
            forall|k: int|
                0 <= k < jobs@.len() ==> case_bytes(
                    in_all_cases(cases@.take(i as int))[k].id@,
                    #[trigger] job_bytes(jobs@)[k],
                ),
        decreases cases@.len() - i,
    {
        let case = cases[i];
        let ghost before = in_all_cases(cases@.take(i as int));
        proof {
            assert(cases@.take(i + 1).drop_last() =~= cases@.take(i as int));
            assert(cases@.take(i + 1).last() == case);
        }
        if case.in_all {
            proof {
                assert(spec_catalog()[i as int] == case);
                assert(catalog_has(case.id@));
            }
            let d = case.doc();
            match encode(&d) {
                Ok(bytes) => {
                    let ghost b = bytes@;
                    let ghost old_jobs = jobs@;
                    jobs.push(
                        Job { note: Some(note(&["printing ", case.id, " (", case.expect, ")"])), bytes },
                    );
                    proof {
                        assert(case_bytes(case.id@, b));
                        let now = in_all_cases(cases@.take(i + 1));
                        assert(now == before.push(case));
                        assert forall|k: int| 0 <= k < jobs@.len() implies case_bytes(
                            now[k].id@,
                            #[trigger] job_bytes(jobs@)[k],
                        ) by {
                            if k < old_jobs.len() {
                                assert(jobs@[k] == old_jobs[k]);
                                assert(job_bytes(jobs@)[k] == job_bytes(old_jobs)[k]);
                            }
                        }
                    }
                },
                Err(e) => {
                    return Err(CliError::Encode(e));
                },
            }
        }
        i = i + 1;
    }
    assert(cases@.take(i as int) =~= cases@);
    Ok(jobs)
}

/// Decide what a parsed command line does.
pub fn plan(p: &Parsed) -> (r: core::result::Result<Plan, CliError>)
    ensures
        plan_result(*p, r),
{
    let dry = p.mode.is_dry();
    let selector = match &p.mode {
        Mode::Deliver { selector, .. } => copy_selector(selector),
        Mode::Dry { .. } => None,
    };
    match &p.command {
        Command::List => {
            if dry {
                return Err(CliError::DryNotApplicable("list"));
            }
            Ok(Plan::ListUsb)
        },
        Command::Debug => {
            if dry {
                return Err(CliError::DryNotApplicable("debug"));
            }
            Ok(Plan::Debug { selector })
        },
        Command::Status => {
            if dry {
                return Ok(Plan::Dump(status_chunks()));
            }
            Ok(Plan::Status { selector })
        },
        Command::Id => {
            if dry {
                return Ok(Plan::Dump(info_chunks()));
            }
            Ok(Plan::Identify { selector })
        },
        Command::Hello => {
            let d = hello();
            proof {
                lemma_text_page_encodes(d@, "SYSTEM ONLINE"@);
                lemma_all_encode(d@);
            }
            let r = emit_doc(&p.mode, &d, None);
            proof {
                if r is Ok {
                    let page = |d: Seq<PrinterCommand>| text_page_is(d, "SYSTEM ONLINE"@);
                    assert(page(d@));
                    let b = spec_encode_commands(d@)->Ok_0;
                    assert(encodes_page(b, page));
                }
            }
            r
        },
        Command::Text(t) => {
            let d = text_page(t.as_str());
            proof {
                lemma_text_page_encodes(d@, t@);
                lemma_all_encode(d@);
            }
            let r = emit_doc(&p.mode, &d, None);
            proof {
                if r is Ok {
                    let page = |d: Seq<PrinterCommand>| text_page_is(d, t@);
                    assert(page(d@));
                    let b = spec_encode_commands(d@)->Ok_0;
                    assert(encodes_page(b, page));
                }
            }
            r
        },
        Command::Ruler => {
            let d = ruler();
            proof {
                lemma_ruler_encodes(d@);
                lemma_all_encode(d@);
            }
            let r = emit_doc(&p.mode, &d, None);
            proof {
                if r is Ok {
                    let page = |d: Seq<PrinterCommand>| ruler_is(d);
                    assert(page(d@));
                    let b = spec_encode_commands(d@)->Ok_0;
                    assert(encodes_page(b, page));
                }
            }
            r
        },
        Command::Qr(data) => {
            let d = qr_page(data.as_str());
            let r = emit_doc(&p.mode, &d, None);
            proof {
                if r is Ok {
                    let page = |d: Seq<PrinterCommand>| qr_page_is(d, data@);
                    assert(page(d@));
                    let b = spec_encode_commands(d@)->Ok_0;
                    assert(encodes_page(b, page));
                }
            }
            r
        },
        Command::Ean13(digits) => {
            let d = ean13_page(digits.as_str());
            let r = emit_doc(&p.mode, &d, None);
            proof {
                if r is Ok {
                    let page = |d: Seq<PrinterCommand>| ean13_page_is(d, digits@);
                    assert(page(d@));
                    let b = spec_encode_commands(d@)->Ok_0;
                    assert(encodes_page(b, page));
                }
            }
            r
        },
        Command::Recover => {
            let b = encode_recover();
            Ok(emit(&p.mode, one_job(crate::bytes::copy_bytes(&b), None)))
        },
        Command::TestList => Ok(Plan::TestList),
        Command::TestAll => {
            let jobs = all_jobs()?;
            let plan = emit(&p.mode, jobs);
            proof {
                assert(emits(p.mode, job_bytes(jobs@), plan));
            }
            Ok(plan)
        },
        Command::TestOne(id) => {
            match find(id.as_str()) {
                None => Err(CliError::UnknownTest(owned(id.as_str()))),
                Some(case) => {
                    proof {
                        let k = choose|k: int| 0 <= k < spec_catalog().len() && spec_catalog()[k] == case;
                        assert(spec_catalog()[k].id@ == case.id@);
                    }
                    let d = case.doc();
                    let r = emit_doc(&p.mode, &d, Some(note(&[case.id, ": ", case.expect])));
                    proof {
                        let plan = r->Ok_0;
                        let b = spec_encode_commands(d@)->Ok_0;
                        assert(case_bytes(case.id@, b));
                        assert(emits(p.mode, seq![b], plan));
                    }
                    r
                },
            }
        },
    }
}

/// Parse the command line and decide what it does.
pub fn run(args: &[&str]) -> (r: core::result::Result<Plan, CliError>)
    ensures
        exists|q: core::result::Result<Parsed, CliError>|
            #[trigger] parse_result(texts(args@), q) && match q {
                Ok(p) => plan_result(p, r),
                Err(e) => r == Err::<Plan, CliError>(e),
            },
{
    let q = parse(args);
    let ghost parsed = q;
    let r = match q {
        Ok(p) => plan(&p),
        Err(e) => Err(e),
    };
    proof {
        assert(parse_result(texts(args@), parsed));
    }
    r
}

/// Ask the printer to report the job done and require the requested ID.
pub fn wait_done<T: Transport>(reader: &mut ReplyReader<T>) -> (r: Result<[u8; 4]>)
    ensures
        r is Ok ==> r->Ok_0@ == PROCESS_ID@ && old(reader).stream().len() >= 7
            && completion_id(old(reader).stream().take(7)) == Some(PROCESS_ID@)
            && final(reader).spec_transport().sent() == old(reader).spec_transport().sent()
            + completion_request(),
        r matches Err(Error::Framing(FramingError::WrongId { requested, got })) ==> requested@
            == PROCESS_ID@ && got@ != PROCESS_ID@ && old(reader).stream().len() >= 7
            && completion_id(old(reader).stream().take(7)) == Some(got@),
        old(reader).spec_transport().faultless() ==> final(reader).spec_transport().sent()
            == old(reader).spec_transport().sent() + completion_request(),
        old(reader).spec_transport().faultless() && old(reader).stream().len() < 7 ==> r
            == Err::<[u8; 4], Error>(Error::Framing(FramingError::UnexpectedEof)),
{
    let request = encode_process_id(PROCESS_ID);
    assert(request@ == completion_request());
    reader.transport_mut().write(&request)?;
    reader.read_process_completion(PROCESS_ID)
}

/// Send a job, then wait for its completion when asked.
pub fn deliver<T: Transport>(reader: &mut ReplyReader<T>, bytes: &[u8], wait: bool) -> (r: Result<()>)
    ensures
        r is Ok ==> final(reader).spec_transport().sent() == old(reader).spec_transport().sent()
            + bytes@ + if wait {
            completion_request()
        } else {
            Seq::empty()
        },
        old(reader).spec_transport().faultless() ==> final(reader).spec_transport().sent()
            == old(reader).spec_transport().sent() + bytes@ + if wait {
            completion_request()
        } else {
            Seq::empty()
        },
        old(reader).spec_transport().faultless() && !wait ==> r is Ok,
{
    reader.transport_mut().write(bytes)?;
    if wait {
        wait_done(reader)?;
    }
    proof {
        if !wait {
            assert(reader.spec_transport().sent() =~= old(reader).spec_transport().sent() + bytes@ + Seq::<u8>::empty());
        }
    }
    Ok(())
}

} // verus!
