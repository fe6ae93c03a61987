//! One order: an assigned job and the child process that does it.
//!
//! The child is started from what `Order::command` says; each line of its
//! output and its end are handed to `Order::run`, which says what to send.
//! At most one report that ends the job is ever sent.

use crate::bytes::{copy_bytes, push_all};
use crate::protocols::gearman::{Request, RequestView};
use crate::protocols::order::{
    spec_complete_entries, spec_parse_line, Message, MessageView,
};
use crate::json::spec_object_text;
use crate::state::worker::{Timeout, Worker};
use crate::text::{
    decimal, duration_debug, hex_encode, path_parent, signed_decimal, spec_decimal,
    spec_duration_debug, spec_hex, spec_proper_prefix, spec_signed_decimal, spec_utf8, utf8,
};
use vstd::prelude::*;
use vstd::string::StringExecFns;

verus! {

/// An assigned job on its way through a child process.
#[derive(Debug)]
pub struct Order {
    pub log_prefix: String,
    pub name: String,
    pub executor: String,
    pub timeout: Timeout,
    pub handle: Vec<u8>,
    pub unique: Vec<u8>,
    pub workload: Vec<u8>,
    pub sent_complete: bool,
}

/// How to start the child of an order: the program, the directory to start
/// it in, and its three arguments.
#[derive(Debug)]
pub struct Invocation {
    pub program: String,
    pub directory: String,
    pub name: String,
    pub unique: Vec<u8>,
    pub length: String,
}

/// What happens to an order.
#[derive(Debug)]
pub enum OrderEvent {
    /// The child wrote a line.
    Line(String),
    /// The child ended by itself with this exit code.
    Exited { code: i32 },
    /// The child ran out of time and was killed.
    TimedOut,
}

/// What is to be done about it.
#[derive(Debug)]
pub enum OrderAction {
    /// Send this request to the server.
    Send(Request),
    /// Write this line to the worker's own standard error.
    Print(String),
    /// Nothing: the job has been reported as ended before.
    Nothing,
    /// Nothing: the line is no message.
    Skipped,
}

/// What an `OrderAction` holds.
pub enum OrderActionView {
    Send(RequestView),
    Print(Seq<char>),
    Nothing,
    Skipped,
}

impl View for OrderAction {
    type V = OrderActionView;

    open spec fn view(&self) -> OrderActionView {
        match *self {
            OrderAction::Send(r) => OrderActionView::Send(r@),
            OrderAction::Print(s) => OrderActionView::Print(s@),
            OrderAction::Nothing => OrderActionView::Nothing,
            OrderAction::Skipped => OrderActionView::Skipped,
        }
    }
}

/// What an `OrderEvent` is to the order: a line by the message it spells.
pub enum OrderEventView {
    Line(Option<MessageView>),
    Exited { code: int },
    TimedOut,
}

impl View for OrderEvent {
    type V = OrderEventView;

    open spec fn view(&self) -> OrderEventView {
        match *self {
            OrderEvent::Line(line) => OrderEventView::Line(spec_parse_line(line@)),
            OrderEvent::Exited { code } => OrderEventView::Exited { code: code as int },
            OrderEvent::TimedOut => OrderEventView::TimedOut,
        }
    }
}

/// The prefix of an order's log lines: the function, then the handle in
/// hexadecimal, each in square brackets.
pub open spec fn spec_log_prefix(name: Seq<char>, handle: Seq<u8>) -> Seq<char> {
    "["@ + name + "] ["@ + spec_hex(handle) + "]"@
}

/// The directory to start a child in: the one that holds the program, `/tmp`
/// if there is none.
pub open spec fn spec_working_directory(parent: Option<Seq<char>>) -> Seq<char> {
    match parent {
        Some(directory) => directory,
        None => "/tmp"@,
    }
}

/// The body of the report of a child that ended with a code other than 0.
pub open spec fn spec_exit_body(code: int) -> Seq<u8> {
    spec_utf8("{\"error\":\"order process exited with code="@) + spec_utf8(
        spec_signed_decimal(code),
    ) + spec_utf8("\"}"@)
}

/// The body of the report of a child that ran out of time; `duration` is the
/// timeout as text.
pub open spec fn spec_timeout_body(duration: Seq<char>) -> Seq<u8> {
    spec_utf8("{\"error\":\"order timed out after duration="@) + spec_utf8(duration) + spec_utf8(
        "\"}"@,
    )
}

/// What a message of the child leads to. Once the job has been reported as
/// ended, nothing more is sent about it; a line to print is always printed.
pub open spec fn spec_on_message(handle: Seq<u8>, sent: bool, message: MessageView) -> (
    bool,
    OrderActionView,
) {
    match message {
        MessageView::Print { content } => (sent, OrderActionView::Print(content)),
        _ => if sent {
            (true, OrderActionView::Nothing)
        } else {
            match message {
                MessageView::Complete { data, error, others } => (
                    true,
                    OrderActionView::Send(
                        RequestView::WorkComplete {
                            handle,
                            data: spec_object_text(spec_complete_entries(data, error, others)),
                        },
                    ),
                ),
                MessageView::Update { data } => (
                    false,
                    OrderActionView::Send(RequestView::WorkData { handle, data }),
                ),
                MessageView::Progress { numerator, denominator } => (
                    false,
                    OrderActionView::Send(
                        RequestView::WorkStatus {
                            handle,
                            numerator: spec_utf8(spec_signed_decimal(numerator)),
                            denominator: spec_utf8(spec_signed_decimal(denominator)),
                        },
                    ),
                ),
                MessageView::Print { content } => (sent, OrderActionView::Print(content)),
            }
        },
    }
}

/// What an event leads to: whether the job counts as reported afterwards,
/// and the action. A line that is no message is skipped. The end of the child
/// is reported unless the job has been reported before: an empty completion
/// after exit code 0, an exception otherwise.
pub open spec fn spec_order_step(
    handle: Seq<u8>,
    timeout: Timeout,
    sent: bool,
    event: OrderEventView,
) -> (bool, OrderActionView) {
    match event {
        OrderEventView::Line(None) => (sent, OrderActionView::Skipped),
        OrderEventView::Line(Some(message)) => spec_on_message(handle, sent, message),
        OrderEventView::Exited { code } => if sent {
            (true, OrderActionView::Nothing)
        } else if code == 0 {
            (
                true,
                OrderActionView::Send(RequestView::WorkComplete { handle, data: Seq::empty() }),
            )
        } else {
            (
                true,
                OrderActionView::Send(
                    RequestView::WorkException { handle, data: spec_exit_body(code) },
                ),
            )
        },
        OrderEventView::TimedOut => if sent {
            (true, OrderActionView::Nothing)
        } else {
            (
                true,
                OrderActionView::Send(
                    RequestView::WorkException {
                        handle,
                        data: spec_timeout_body(
                            spec_duration_debug(timeout.spec_secs(), timeout.spec_nanos()),
                        ),
                    },
                ),
            )
        },
    }
}

/// The directory to start a child in, from what the program's path has as
/// its parent.
pub fn working_directory(parent: Option<String>) -> (directory: String)
    ensures
        directory@ == spec_working_directory(
            match parent {
                Some(p) => Some(p@),
                None => None,
            },
        ),
{
    match parent {
        Some(directory) => directory,
        None => String::from_str("/tmp"),
    }
}

/// The body of the report of a child that ended with `code`.
pub fn exit_body(code: i32) -> (body: Vec<u8>)
    ensures
        body@ == spec_exit_body(code as int),
{
    let mut body = utf8("{\"error\":\"order process exited with code=");
    let digits = signed_decimal(code as i64);
    push_all(&mut body, digits.as_str().as_bytes());
    push_all(&mut body, "\"}".as_bytes());
    body
}

/// The body of the report of a child that ran out of time; `duration` is the
/// timeout as text.
pub fn timeout_body(duration: &str) -> (body: Vec<u8>)
    ensures
        body@ == spec_timeout_body(duration@),
{
    let mut body = utf8("{\"error\":\"order timed out after duration=");
    push_all(&mut body, duration.as_bytes());
    push_all(&mut body, "\"}".as_bytes());
    body
}

impl Worker {
    /// Makes the order for an assigned job: it takes the function, the
    /// program and the timeout from the worker, and has not been reported.
    pub fn order(&self, handle: Vec<u8>, unique: Vec<u8>, workload: Vec<u8>) -> (order: Order)
        ensures
            order.log_prefix@ == spec_log_prefix(self.name@, handle@),
            order.name@ == self.name@,
            order.executor@ == self.executor@,
            order.timeout == self.timeout,
            order.handle == handle,
            order.unique == unique,
            order.workload == workload,
            !order.sent_complete,
    {
        let mut log_prefix = String::from_str("[");
        log_prefix.append(self.name.as_str());
        log_prefix.append("] [");
        let hex = hex_encode(handle.as_slice());
        log_prefix.append(hex.as_str());
        log_prefix.append("]");
        Order {
            log_prefix,
            name: self.name.clone(),
            executor: self.executor.clone(),
            timeout: self.timeout,
            handle,
            unique,
            workload,
            sent_complete: false,
        }
    }
}

impl Order {
    /// How to start the child: the program with the function, the unique id
    /// of the job and the length of the workload in decimal as arguments, in
    /// the directory that holds the program, or in `/tmp` if the program's
    /// path has no parent. The directory that holds the program is the
    /// program's path without its last component; where that component
    /// starts is the platform's to say.
    pub fn command(&self) -> (invocation: Invocation)
        ensures
            invocation.program@ == self.executor@,
            invocation.name@ == self.name@,
            invocation.unique@ == self.unique@,
            invocation.length@ == spec_decimal(self.workload@.len()),
            invocation.directory@ == "/tmp"@ || spec_proper_prefix(
                invocation.directory@,
                self.executor@,
            ),
    {
        let parent = path_parent(self.executor.as_str());
        let directory = working_directory(parent);
        Invocation {
            program: self.executor.clone(),
            directory,
            name: self.name.clone(),
            unique: copy_bytes(self.unique.as_slice()),
            length: decimal(self.workload.len() as u64),
        }
    }

    /// Reports an exception, unless the job has been reported as ended.
    pub fn exception(&mut self, data: Vec<u8>) -> (request: Option<Request>)
        ensures
            final(self).sent_complete,
            *final(self) == (Order { sent_complete: true, ..*old(self) }),
            match request {
                Some(r) => !old(self).sent_complete && r@ == (RequestView::WorkException {
                    handle: old(self).handle@,
                    data: data@,
                }),
                None => old(self).sent_complete,
            },
    {
        if self.sent_complete {
            return None;
        }
        self.sent_complete = true;
        Some(Request::WorkException { handle: copy_bytes(self.handle.as_slice()), data })
    }

    /// Reports the completion, unless the job has been reported as ended.
    pub fn complete(&mut self, data: Vec<u8>) -> (request: Option<Request>)
        ensures
            final(self).sent_complete,
            *final(self) == (Order { sent_complete: true, ..*old(self) }),
            match request {
                Some(r) => !old(self).sent_complete && r@ == (RequestView::WorkComplete {
                    handle: old(self).handle@,
                    data: data@,
                }),
                None => old(self).sent_complete,
            },
    {
        if self.sent_complete {
            return None;
        }
        self.sent_complete = true;
        Some(Request::WorkComplete { handle: copy_bytes(self.handle.as_slice()), data })
    }

    /// Passes interim data on, unless the job has been reported as ended.
    pub fn data(&self, data: Vec<u8>) -> (request: Option<Request>)
        ensures
            match request {
                Some(r) => !self.sent_complete && r@ == (RequestView::WorkData {
                    handle: self.handle@,
                    data: data@,
                }),
                None => self.sent_complete,
            },
    {
        if self.sent_complete {
            return None;
        }
        Some(Request::WorkData { handle: copy_bytes(self.handle.as_slice()), data })
    }

    /// Passes progress on, as two decimal numbers, unless the job has been
    /// reported as ended.
    pub fn status(&self, numerator: isize, denominator: isize) -> (request: Option<Request>)
        ensures
            match request {
                Some(r) => !self.sent_complete && r@ == (RequestView::WorkStatus {
                    handle: self.handle@,
                    numerator: spec_utf8(spec_signed_decimal(numerator as int)),
                    denominator: spec_utf8(spec_signed_decimal(denominator as int)),
                }),
                None => self.sent_complete,
            },
    {
        if self.sent_complete {
            return None;
        }
        let numerator = signed_decimal(numerator as i64);
        let denominator = signed_decimal(denominator as i64);
        Some(
            Request::WorkStatus {
                handle: copy_bytes(self.handle.as_slice()),
                numerator: utf8(numerator.as_str()),
                denominator: utf8(denominator.as_str()),
            },
        )
    }
}

impl Order {
    /// Acts on one message of the child.
    pub fn handle(&mut self, message: Message) -> (action: OrderAction)
        ensures
            (final(self).sent_complete, action@) == spec_on_message(
                old(self).handle@,
                old(self).sent_complete,
                message@,
            ),
            *final(self) == (Order { sent_complete: final(self).sent_complete, ..*old(self) }),
    {
        match message {
            Message::Print(print) => OrderAction::Print(print.content),
            Message::Complete(complete) => {
                let body = complete.body();
                match self.complete(body) {
                    Some(request) => OrderAction::Send(request),
                    None => OrderAction::Nothing,
                }
            },
            Message::Update(update) => {
                let body = update.body();
                match self.data(body) {
                    Some(request) => OrderAction::Send(request),
                    None => OrderAction::Nothing,
                }
            },
            Message::Progress(progress) => {
                match self.status(progress.numerator, progress.denominator) {
                    Some(request) => OrderAction::Send(request),
                    None => OrderAction::Nothing,
                }
            },
        }
    }

    /// Acts on one line of the child's output: a line that is no message is
    /// skipped, and the order goes on.
    pub fn read_line(&mut self, line: &str) -> (action: OrderAction)
        ensures
            (final(self).sent_complete, action@) == spec_order_step(
                old(self).handle@,
                old(self).timeout,
                old(self).sent_complete,
                OrderEventView::Line(spec_parse_line(line@)),
            ),
            *final(self) == (Order { sent_complete: final(self).sent_complete, ..*old(self) }),
    {
        match Message::parse(line) {
            Some(message) => self.handle(message),
            None => OrderAction::Skipped,
        }
    }

    /// Acts on one event of the order, and says what is to be done. Whatever
    /// the events, at most one request that ends the job is ever handed out,
    /// and none about the job after it.
    pub fn run(&mut self, event: OrderEvent) -> (action: OrderAction)
        ensures
            (final(self).sent_complete, action@) == spec_order_step(
                old(self).handle@,
                old(self).timeout,
                old(self).sent_complete,
                event@,
            ),
            *final(self) == (Order { sent_complete: final(self).sent_complete, ..*old(self) }),
    {
        match event {
            OrderEvent::Line(line) => self.read_line(line.as_str()),
            OrderEvent::Exited { code } => {
                let body = if code == 0 {
                    Vec::new()
                } else {
                    exit_body(code)
                };
                let request = if code == 0 {
                    self.complete(body)
                } else {
                    self.exception(body)
                };
                match request {
                    Some(request) => OrderAction::Send(request),
                    None => OrderAction::Nothing,
                }
            },
            OrderEvent::TimedOut => {
                let duration = duration_debug(self.timeout.secs(), self.timeout.nanos());
                let body = timeout_body(duration.as_str());
                match self.exception(body) {
                    Some(request) => OrderAction::Send(request),
                    None => OrderAction::Nothing,
                }
            },
        }
    }
}

/// Whether an action hands out a request that ends the job.
pub open spec fn spec_is_terminal(action: OrderActionView) -> bool {
    action matches OrderActionView::Send(r) && (r is WorkComplete || r is WorkException)
}

/// An order that starts with `sent` run through `events`: whether the job
/// counts as reported at the end, and the action for each event.
pub open spec fn spec_order_run(
    handle: Seq<u8>,
    timeout: Timeout,
    sent: bool,
    events: Seq<OrderEventView>,
) -> (bool, Seq<OrderActionView>)
    decreases events.len(),
{
    if events.len() == 0 {
        (sent, Seq::empty())
    } else {
        let before = spec_order_run(handle, timeout, sent, events.drop_last());
        let step = spec_order_step(handle, timeout, before.0, events.last());
        (step.0, before.1.push(step.1))
    }
}

/// How many of the actions hand out a request that ends the job.
pub open spec fn spec_count_terminal(actions: Seq<OrderActionView>) -> nat
    decreases actions.len(),
{
    if actions.len() == 0 {
        0
    } else {
        spec_count_terminal(actions.drop_last()) + if spec_is_terminal(actions.last()) {
            1nat
        } else {
            0nat
        }
    }
}

/// Where one of the actions ends the job, the count is not 0.
pub proof fn lemma_count_terminal_positive(actions: Seq<OrderActionView>, i: int)
    requires
        0 <= i < actions.len(),
        spec_is_terminal(actions[i]),
    ensures
        spec_count_terminal(actions) >= 1,
    decreases actions.len(),
{
    if i < actions.len() - 1 {
        lemma_count_terminal_positive(actions.drop_last(), i);
    }
}

/// What holds of every run of an order, from either start.
pub proof fn lemma_order_run(
    handle: Seq<u8>,
    timeout: Timeout,
    sent: bool,
    events: Seq<OrderEventView>,
)
    ensures
        ({
            let run = spec_order_run(handle, timeout, sent, events);
            &&& run.1.len() == events.len()
            &&& sent ==> run.0
            &&& spec_count_terminal(run.1) == if !sent && run.0 {
                1nat
            } else {
                0nat
            }
            &&& sent ==> forall|j: int| 0 <= j < run.1.len() ==> !(run.1[j] is Send)
            &&& forall|i: int, j: int|
                0 <= i < j < run.1.len() && spec_is_terminal(run.1[i]) ==> !(run.1[j] is Send)
            &&& forall|k: int|
                0 <= k < events.len() && (events[k] is Exited || events[k] is TimedOut) ==> run.0
        }),
    decreases events.len(),
{
    if events.len() > 0 {
        let head = events.drop_last();
        lemma_order_run(handle, timeout, sent, head);
        let before = spec_order_run(handle, timeout, sent, head);
        let step = spec_order_step(handle, timeout, before.0, events.last());
        let run = spec_order_run(handle, timeout, sent, events);
        assert(run.1.drop_last() =~= before.1);
        assert forall|i: int, j: int|
            0 <= i < j < run.1.len() && spec_is_terminal(run.1[i]) implies !(run.1[j] is Send) by {
            if j == run.1.len() - 1 {
                lemma_count_terminal_positive(before.1, i);
            } else {
                assert(run.1[i] == before.1[i]);
                assert(run.1[j] == before.1[j]);
            }
        }
        assert forall|k: int|
            0 <= k < events.len() && (events[k] is Exited
                || events[k] is TimedOut) implies run.0 by {
            if k < events.len() - 1 {
                assert(head[k] == events[k]);
            }
        }
        if sent {
            assert forall|j: int| 0 <= j < run.1.len() implies !(run.1[j] is Send) by {
                if j < run.1.len() - 1 {
                    assert(run.1[j] == before.1[j]);
                }
            }
        }
    }
}

/// Once-only report of the end. Whatever a fresh order is run through, at
/// most one request that ends the job is handed out, exactly one if the
/// child's end is among the events, and after that request none at all: not
/// for a second line that says the job is complete, nor for one that comes
/// after a timeout.
pub proof fn law_order_once_only(handle: Seq<u8>, timeout: Timeout, events: Seq<OrderEventView>)
    ensures
        ({
            let run = spec_order_run(handle, timeout, false, events);
            &&& spec_count_terminal(run.1) <= 1
            &&& (exists|k: int|
                0 <= k < events.len() && (events[k] is Exited || events[k] is TimedOut))
                ==> spec_count_terminal(run.1) == 1
            &&& forall|i: int, j: int|
                0 <= i < j < run.1.len() && spec_is_terminal(run.1[i]) ==> !(run.1[j] is Send)
        }),
{
    lemma_order_run(handle, timeout, false, events);
}

} // verus!
