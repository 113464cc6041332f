//! Binding the port, and what to do when another process holds it.

use vstd::prelude::*;
use vstd::string::*;
use vstd::utf8::*;

use crate::number::{
    all_digits, decimal, decimal_reads_back, decimal_stands_for_its_number, decimal_text, is_digit,
    parse_u32, push_decimal, read_u32,
};
use crate::text::{
    every_text_has_a_middle, lossy_text, read_lossy, same_text, split_words, texts, trim, trimmed,
    trimmed_start, trimming_leaves_the_middle, white_space, word_len, words,
};

verus! {

/// How long a killed process is given to release the port, in milliseconds.
pub const RELEASE_WAIT_MS: u64 = 300;

/// The numbers among a list of words, in order.
pub open spec fn numbers_in(list: Seq<Seq<char>>) -> Seq<u32>
    decreases list.len(),
{
    if list.len() == 0 {
        seq![]
    } else {
        let before = numbers_in(list.drop_last());
        match read_u32(list.last()) {
            Some(n) => before.push(n),
            None => before,
        }
    }
}

/// The process identifiers in a listing: the numbers among its words.
pub fn parse_pids(listing: &str) -> (res: Vec<u32>)
    ensures
        res@ == numbers_in(words(listing@)),
{
    let list: Vec<String> = split_words(listing);
    let mut pids: Vec<u32> = Vec::new();
    let n: usize = list.len();
    let mut i: usize = 0;
    while i < n
        invariant
            i <= n,
            n == list@.len(),
            pids@ == numbers_in(texts(list@).take(i as int)),
        decreases n - i,
    {
        proof {
            let after = texts(list@).take(i + 1);
            assert(after.drop_last() =~= texts(list@).take(i as int));
            assert(after.last() == list@[i as int]@);
        }
        if let Some(pid) = parse_u32(list[i].as_str()) {
            pids.push(pid);
        }
        i += 1;
    }
    assert(texts(list@).take(n as int) =~= texts(list@));
    pids
}

/// The processes that a listing names; none where there is no listing.
pub open spec fn pids_of(listing: Option<Seq<u8>>) -> Seq<u32> {
    match listing {
        Some(bytes) => numbers_in(words(lossy_text(bytes))),
        None => seq![],
    }
}

/// The processes that listen on a port, given what `lsof` printed, or `None` when it could not be run.
pub fn pids_on_port(listing: Option<&[u8]>) -> (res: Vec<u32>)
    ensures
        listing matches Some(bytes) ==> res@ == pids_of(Some(bytes@)) && (valid_utf8(bytes@)
            ==> res@ == numbers_in(words(decode_utf8(bytes@)))),
        listing matches Some(bytes) ==> res@ == numbers_in(words(lossy_text(bytes@))),
        listing is None ==> res@.len() == 0,
        listing is None ==> res@ == pids_of(None),
{
    match listing {
        Some(bytes) => parse_pids(read_lossy(bytes).as_str()),
        None => Vec::new(),
    }
}

/// A listing as `lsof` prints it: each process on a line of its own.
pub open spec fn listing_of(pids: Seq<u32>) -> Seq<char>
    decreases pids.len(),
{
    if pids.len() == 0 {
        seq![]
    } else {
        decimal(pids[0] as nat) + seq!['\n'] + listing_of(pids.drop_first())
    }
}

/// The first word's number comes before those of the other words.
proof fn lemma_numbers_from_the_front(word: Seq<char>, rest: Seq<Seq<char>>)
    ensures
        read_u32(word) matches Some(n) ==> numbers_in(seq![word] + rest) == seq![n] + numbers_in(
            rest,
        ),
    decreases rest.len(),
{
    let list = seq![word] + rest;
    if rest.len() == 0 {
        assert(list.drop_last() =~= seq![]);
        assert(list.last() == word);
        assert(numbers_in(list.drop_last()) =~= seq![]);
    } else {
        lemma_numbers_from_the_front(word, rest.drop_last());
        assert(list.drop_last() =~= seq![word] + rest.drop_last());
        assert(list.last() == rest.last());
    }
}

/// A word that white space follows ends there.
proof fn lemma_word_ends(word: Seq<char>, rest: Seq<char>)
    requires
        all_digits(word),
        rest.len() > 0,
        white_space(rest[0]),
    ensures
        word_len(word + rest) == word.len(),
    decreases word.len(),
{
    if word.len() == 0 {
        assert(word + rest =~= rest);
    } else {
        let shorter = word.drop_first();
        assert forall|i: int| 0 <= i < shorter.len() implies is_digit(#[trigger] shorter[i]) by {
            assert(shorter[i] == word[i + 1]);
        }
        lemma_word_ends(shorter, rest);
        assert((word + rest).drop_first() =~= shorter + rest);
        assert(is_digit(word[0]));
    }
}

/// The processes that are read from a listing are those that were listed, in their order.
pub proof fn listing_reads_back(pids: Seq<u32>)
    ensures
        numbers_in(words(listing_of(pids))) == pids,
    decreases pids.len(),
{
    let text = listing_of(pids);
    if pids.len() == 0 {
        assert(words(text) =~= seq![]);
        assert(numbers_in(words(text)) =~= pids);
    } else {
        let word = decimal(pids[0] as nat);
        let others = listing_of(pids.drop_first());
        let rest = seq!['\n'] + others;
        assert(text =~= word + rest);
        decimal_stands_for_its_number(pids[0] as nat);
        decimal_reads_back(pids[0]);
        lemma_word_ends(word, rest);
        assert(is_digit(word[0]));
        assert(trimmed_start(text) == text);
        assert(text.take(word.len() as int) =~= word);
        assert(text.skip(word.len() as int) =~= rest);
        assert(rest.drop_first() =~= others);
        assert(trimmed_start(rest) == trimmed_start(others));
        assert(words(rest) == words(others));
        lemma_numbers_from_the_front(word, words(others));
        listing_reads_back(pids.drop_first());
        assert(seq![pids[0]] + pids.drop_first() =~= pids);
    }
}

/// The arguments with which `lsof` lists the processes that listen on a port, and no others.
pub fn lsof_args(port: u16) -> (res: Vec<String>)
    ensures
        texts(res@) == seq!["-ti"@, "tcp:"@ + decimal(port as nat), "-sTCP:LISTEN"@],
{
    let mut filter: String = "tcp:".to_owned();
    push_decimal(&mut filter, port as u64);
    let mut args: Vec<String> = Vec::new();
    args.push("-ti".to_owned());
    args.push(filter);
    args.push("-sTCP:LISTEN".to_owned());
    args
}

/// The address to listen on: every interface, at the given port.
pub fn listen_address(port: u16) -> (res: String)
    ensures
        res@ == "0.0.0.0:"@ + decimal(port as nat),
{
    let mut address: String = "0.0.0.0:".to_owned();
    push_decimal(&mut address, port as u64);
    address
}

/// The numbers of a list in decimal notation, with a comma and a blank between them.
pub open spec fn listed(pids: Seq<u32>) -> Seq<char>
    decreases pids.len(),
{
    if pids.len() == 0 {
        seq![]
    } else if pids.len() == 1 {
        decimal(pids[0] as nat)
    } else {
        listed(pids.drop_last()) + ", "@ + decimal(pids.last() as nat)
    }
}

/// How processes are named to the user.
pub open spec fn pid_info(pids: Seq<u32>) -> Seq<char> {
    if pids.len() == 0 {
        "unknown process"@
    } else {
        listed(pids)
    }
}

/// Names processes to the user.
pub fn pid_info_text(pids: &Vec<u32>) -> (res: String)
    ensures
        res@ == pid_info(pids@),
        pids@.len() == 0 ==> res@ == "unknown process"@,
        pids@.len() == 1 ==> res@ == decimal(pids@[0] as nat),
        pids@.len() > 0 ==> res@ == listed(pids@),
{
    let n: usize = pids.len();
    if n == 0 {
        return "unknown process".to_owned();
    }
    let mut out: String = decimal_text(pids[0] as u64);
    assert(pids@.take(1).len() == 1);
    let mut i: usize = 1;
    while i < n
        invariant
            1 <= i <= n,
            n == pids@.len(),
            out@ == listed(pids@.take(i as int)),
        decreases n - i,
    {
        proof {
            let after = pids@.take(i + 1);
            assert(after.drop_last() =~= pids@.take(i as int));
            assert(after.last() == pids@[i as int]);
        }
        out.append(", ");
        push_decimal(&mut out, pids[i] as u64);
        i += 1;
    }
    assert(pids@.take(n as int) =~= pids@);
    out
}

/// The notice that processes hold a port.
pub fn in_use_notice(port: u16, pids: &Vec<u32>) -> (res: String)
    ensures
        res@ == "Port "@ + decimal(port as nat) + " is already in use (PID: "@ + pid_info(pids@)
            + ")"@,
{
    let mut out: String = "Port ".to_owned();
    push_decimal(&mut out, port as u64);
    out.append(" is already in use (PID: ");
    out.append(pid_info_text(pids).as_str());
    out.append(")");
    out
}

/// How far the binding of the port has come: what is to be done next, or the outcome.
pub enum Stage {
    /// Try to bind the port.
    Binding,
    /// The port is taken: list the processes that hold it.
    Searching,
    /// Tell the user which processes hold it, and ask whether to kill them.
    Asking(Vec<u32>),
    /// Kill these processes, and wait for the port to be released.
    Killing(Vec<u32>),
    /// The port is bound: serve.
    Serving,
    /// End the program with this exit code.
    Exiting(i32),
}

/// What a [`Stage`] holds.
pub enum StageView {
    /// Try to bind the port.
    Binding,
    /// List the processes that hold it.
    Searching,
    /// Ask whether to kill these processes.
    Asking(Seq<u32>),
    /// Kill these processes.
    Killing(Seq<u32>),
    /// Serve.
    Serving,
    /// End the program with this exit code.
    Exiting(i32),
}

impl View for Stage {
    type V = StageView;

    open spec fn view(&self) -> StageView {
        match *self {
            Stage::Binding => StageView::Binding,
            Stage::Searching => StageView::Searching,
            Stage::Asking(pids) => StageView::Asking(pids@),
            Stage::Killing(pids) => StageView::Killing(pids@),
            Stage::Serving => StageView::Serving,
            Stage::Exiting(code) => StageView::Exiting(code),
        }
    }
}

/// What has happened in binding the port.
pub enum BindEvent {
    /// The port was bound.
    Bound,
    /// Another process holds the port.
    InUse,
    /// The port could not be bound for another reason.
    Refused,
    /// What `lsof` printed; `None` when it could not be run.
    Listed(Option<Vec<u8>>),
    /// The line that the user typed.
    Answer(String),
    /// The processes were killed, and the wait is over.
    Released,
}

/// What a [`BindEvent`] holds.
pub enum BindEventView {
    /// The port was bound.
    Bound,
    /// Another process holds the port.
    InUse,
    /// The port could not be bound for another reason.
    Refused,
    /// What `lsof` printed; `None` when it could not be run.
    Listed(Option<Seq<u8>>),
    /// The line that the user typed.
    Answer(Seq<char>),
    /// The processes were killed, and the wait is over.
    Released,
}

impl View for BindEvent {
    type V = BindEventView;

    open spec fn view(&self) -> BindEventView {
        match *self {
            BindEvent::Bound => BindEventView::Bound,
            BindEvent::InUse => BindEventView::InUse,
            BindEvent::Refused => BindEventView::Refused,
            BindEvent::Listed(Some(bytes)) => BindEventView::Listed(Some(bytes@)),
            BindEvent::Listed(None) => BindEventView::Listed(None),
            BindEvent::Answer(line) => BindEventView::Answer(line@),
            BindEvent::Released => BindEventView::Released,
        }
    }
}

/// The answers that ask to kill.
pub open spec fn consents(line: Seq<char>) -> bool {
    trimmed(line) == "k"@ || trimmed(line) == "K"@
}

/// Whether an answer asks to kill.
pub fn asks_to_kill(line: &str) -> (res: bool)
    ensures
        res == consents(line@),
        res <==> exists|i: int|
            #![trigger line@[i]]
            0 <= i < line@.len() && (line@[i] == 'k' || line@[i] == 'K') && forall|j: int|
                0 <= j < line@.len() && j != i ==> white_space(#[trigger] line@[j]),
{
    proof {
        only_a_lone_k_asks_to_kill(line@);
    }
    let answer: String = trim(line);
    same_text(answer.as_str(), "k") || same_text(answer.as_str(), "K")
}

/// The stage after an event. An event that is not due changes nothing.
pub open spec fn stage_after(stage: StageView, event: BindEventView) -> StageView {
    match (stage, event) {
        (StageView::Binding, BindEventView::Bound) => StageView::Serving,
        (StageView::Binding, BindEventView::InUse) => StageView::Searching,
        (StageView::Binding, BindEventView::Refused) => StageView::Exiting(1),
        (StageView::Searching, BindEventView::Listed(listing)) => StageView::Asking(
            pids_of(listing),
        ),
        (StageView::Asking(pids), BindEventView::Answer(line)) => if !consents(line) {
            StageView::Exiting(0)
        } else if pids.len() == 0 {
            StageView::Exiting(1)
        } else {
            StageView::Killing(pids)
        },
        (StageView::Killing(_), BindEventView::Released) => StageView::Binding,
        _ => stage,
    }
}

/// Takes the binding of the port a step further, after an event.
pub fn bind_or_prompt(stage: Stage, event: BindEvent) -> (res: Stage)
    ensures
        res@ == stage_after(stage@, event@),
        // What came of an attempt to bind.
        stage is Binding && event is Bound ==> res is Serving,
        stage is Binding && event is InUse ==> res is Searching,
        stage is Binding && event is Refused ==> (res matches Stage::Exiting(code) && code == 1),
        // The user is asked about the processes that were listed.
        stage is Searching ==> (event matches BindEvent::Listed(Some(bytes)) ==> (
        res matches Stage::Asking(pids) && pids@ == numbers_in(words(lossy_text(bytes@))) && (
        valid_utf8(bytes@) ==> pids@ == numbers_in(words(decode_utf8(bytes@)))))),
        stage is Searching ==> (event matches BindEvent::Listed(None) ==> (
        res matches Stage::Asking(pids) && pids@.len() == 0)),
        // Nothing but a lone `k` or `K` has them killed; all else ends the program.
        stage matches Stage::Asking(pids) ==> (event matches BindEvent::Answer(line) ==> ((
        exists|i: int|
            #![trigger line@[i]]
            0 <= i < line@.len() && (line@[i] == 'k' || line@[i] == 'K') && forall|j: int|
                0 <= j < line@.len() && j != i ==> white_space(#[trigger] line@[j]))
                    ==> (if pids@.len() == 0 {
            res matches Stage::Exiting(code) && code == 1
        } else {
            res matches Stage::Killing(same) && same@ == pids@
        }))),
        stage matches Stage::Asking(pids) ==> (event matches BindEvent::Answer(line) ==> (!(
        exists|i: int|
            #![trigger line@[i]]
            0 <= i < line@.len() && (line@[i] == 'k' || line@[i] == 'K') && forall|j: int|
                0 <= j < line@.len() && j != i ==> white_space(#[trigger] line@[j]))
                    ==> (res matches Stage::Exiting(code) && code == 0))),
        stage is Killing && event is Released ==> res is Binding,
        // No other event changes anything.
        stage is Binding && !(event is Bound) && !(event is InUse) && !(event is Refused) ==> res
            == stage,
        stage is Searching && !(event is Listed) ==> res == stage,
        stage is Asking && !(event is Answer) ==> res == stage,
        stage is Killing && !(event is Released) ==> res == stage,
        stage is Serving || stage is Exiting ==> res == stage,
{
    match (stage, event) {
        (Stage::Binding, BindEvent::Bound) => Stage::Serving,
        (Stage::Binding, BindEvent::InUse) => Stage::Searching,
        (Stage::Binding, BindEvent::Refused) => Stage::Exiting(1),
        (Stage::Searching, BindEvent::Listed(listing)) => match listing {
            Some(bytes) => Stage::Asking(pids_on_port(Some(bytes.as_slice()))),
            None => Stage::Asking(pids_on_port(None)),
        },
        (Stage::Asking(pids), BindEvent::Answer(line)) => {
            if !asks_to_kill(line.as_str()) {
                Stage::Exiting(0)
            } else if pids.len() == 0 {
                Stage::Exiting(1)
            } else {
                Stage::Killing(pids)
            }
        },
        (Stage::Killing(_), BindEvent::Released) => Stage::Binding,
        (stage, _) => stage,
    }
}

/// The stage after a series of events, from the first attempt to bind.
pub open spec fn stage_after_all(events: Seq<BindEventView>) -> StageView
    decreases events.len(),
{
    if events.len() == 0 {
        StageView::Binding
    } else {
        stage_after(stage_after_all(events.drop_last()), events.last())
    }
}

/// The stage before the event at `n`, from the first attempt to bind.
pub open spec fn stage_at(events: Seq<BindEventView>, n: int) -> StageView {
    stage_after_all(events.take(n))
}

/// The event lists exactly these processes.
pub open spec fn lists(event: BindEventView, pids: Seq<u32>) -> bool {
    event matches BindEventView::Listed(listing) && pids_of(listing) == pids
}

/// The event is an answer of the user that asks to kill.
pub open spec fn is_consent(event: BindEventView) -> bool {
    event matches BindEventView::Answer(line) && consents(line)
}

/// The event is an answer of the user that does not ask to kill.
pub open spec fn is_refusal(event: BindEventView) -> bool {
    event matches BindEventView::Answer(line) && !consents(line)
}

/// At `n` an attempt to bind was made, and the event is what came of it.
pub open spec fn attempt(events: Seq<BindEventView>, n: int) -> bool {
    0 <= n < events.len() && stage_at(events, n) is Binding && (events[n] is Bound
        || events[n] is InUse || events[n] is Refused)
}

/// The attempt at `c` found the port in use, and since then its processes are searched for.
pub open spec fn searching_since(events: Seq<BindEventView>, c: int) -> bool {
    &&& attempt(events, c)
    &&& events[c] is InUse
    &&& forall|n: int| c < n <= events.len() ==> #[trigger] stage_at(events, n) is Searching
}

/// The attempt at `c` found the port in use, the listing at `i` named these processes, and since
/// then the user is asked about them.
pub open spec fn asking_since(events: Seq<BindEventView>, c: int, i: int, pids: Seq<u32>) -> bool {
    &&& c < i < events.len()
    &&& searching_since(events.take(i), c)
    &&& lists(events[i], pids)
    &&& forall|n: int|
        i < n <= events.len() ==> #[trigger] stage_at(events, n) == StageView::Asking(pids)
}

/// The attempt at `c` found the port in use, the listing at `i` named these processes, the user
/// asked at `j` to kill them, and since then they are killed.
pub open spec fn killing_since(
    events: Seq<BindEventView>,
    c: int,
    i: int,
    j: int,
    pids: Seq<u32>,
) -> bool {
    &&& i < j < events.len()
    &&& asking_since(events.take(j), c, i, pids)
    &&& pids.len() > 0
    &&& is_consent(events[j])
    &&& forall|n: int|
        j < n <= events.len() ==> #[trigger] stage_at(events, n) == StageView::Killing(pids)
}

/// The attempt at `c` found the port in use, and by `d` its processes, which were known, were
/// killed with the consent of the user.
pub open spec fn freed(
    events: Seq<BindEventView>,
    c: int,
    i: int,
    j: int,
    d: int,
    pids: Seq<u32>,
) -> bool {
    &&& j < d < events.len()
    &&& killing_since(events.take(d), c, i, j, pids)
    &&& events[d] is Released
}

/// The attempt at `c` found the port in use, and before `b` its processes, which were known, were
/// killed with the consent of the user.
pub open spec fn freed_before(events: Seq<BindEventView>, c: int, b: int) -> bool {
    exists|i: int, j: int, d: int, pids: Seq<u32>| d < b
        && #[trigger] freed(events, c, i, j, d, pids)
}

/// Stages depend on the events before them alone.
proof fn lemma_prefix(events: Seq<BindEventView>, m: int)
    requires
        0 <= m <= events.len(),
    ensures
        forall|n: int| 0 <= n <= m
            ==> #[trigger] stage_at(events.take(m), n) == stage_at(events, n),
        forall|n: int| 0 <= n < m ==> #[trigger] events.take(m)[n] == events[n],
{
    assert forall|n: int| 0 <= n <= m implies #[trigger] stage_at(events.take(m), n) == stage_at(
        events,
        n,
    ) by {
        assert(events.take(m).take(n) =~= events.take(n));
    }
}

/// The stage after the last event.
proof fn lemma_last_stage(events: Seq<BindEventView>)
    ensures
        stage_at(events, events.len() as int) == stage_after_all(events),
        events.len() > 0 ==> stage_after_all(events) == stage_after(
            stage_at(events, events.len() - 1),
            events[events.len() - 1],
        ),
        events.len() > 0 ==> events.drop_last() == events.take(events.len() - 1),
{
    assert(events.take(events.len() as int) =~= events);
    if events.len() > 0 {
        assert(events.drop_last() =~= events.take(events.len() - 1));
    }
}

/// Processes are searched for because an attempt found the port in use.
proof fn lemma_searching(events: Seq<BindEventView>) -> (c: int)
    requires
        stage_after_all(events) is Searching,
    ensures
        searching_since(events, c),
    decreases events.len(),
{
    let last = events.len() - 1;
    let earlier = events.take(last);
    lemma_last_stage(events);
    lemma_prefix(events, last);
    if stage_at(events, last) is Searching {
        lemma_last_stage(earlier);
        let c = lemma_searching(earlier);
        assert forall|n: int| c < n <= events.len() implies #[trigger] stage_at(
            events,
            n,
        ) is Searching by {
            if n <= last {
                assert(stage_at(earlier, n) is Searching);
            }
        }
        assert(stage_at(earlier, c) == stage_at(events, c));
        assert(earlier[c] == events[c]);
        c
    } else {
        last
    }
}

/// The user is asked about the processes that were listed for the attempt.
proof fn lemma_asking(events: Seq<BindEventView>, pids: Seq<u32>) -> (at: (int, int))
    requires
        stage_after_all(events) == StageView::Asking(pids),
    ensures
        asking_since(events, at.0, at.1, pids),
    decreases events.len(),
{
    let last = events.len() - 1;
    let earlier = events.take(last);
    lemma_last_stage(events);
    lemma_prefix(events, last);
    if stage_at(events, last) == StageView::Asking(pids) {
        let (c, i) = lemma_asking(earlier, pids);
        assert forall|n: int| i < n <= events.len() implies #[trigger] stage_at(events, n)
            == StageView::Asking(pids) by {
            if n <= last {
                assert(stage_at(earlier, n) == StageView::Asking(pids));
            }
        }
        assert(earlier.take(i) =~= events.take(i));
        assert(earlier[i] == events[i]);
        (c, i)
    } else {
        let c = lemma_searching(earlier);
        (c, last)
    }
}

/// Processes are killed only after an attempt to bind found the port in use, `lsof` named exactly
/// these processes, of which there is at least one, and the user asked to kill them. From that
/// attempt on the port was not tried again.
pub proof fn kills_only_what_the_user_agreed_to(
    events: Seq<BindEventView>,
    pids: Seq<u32>,
) -> (at: (int, int, int))
    requires
        stage_after_all(events) == StageView::Killing(pids),
    ensures
        killing_since(events, at.0, at.1, at.2, pids),
        forall|n: int| at.0 < n <= events.len() ==> !(#[trigger] stage_at(events, n) is Binding),
    decreases events.len(),
{
    let last = events.len() - 1;
    let earlier = events.take(last);
    lemma_last_stage(events);
    lemma_prefix(events, last);
    let (c, i, j) = if stage_at(events, last) == StageView::Killing(pids) {
        let (c, i, j) = kills_only_what_the_user_agreed_to(earlier, pids);
        assert forall|n: int| j < n <= events.len() implies #[trigger] stage_at(events, n)
            == StageView::Killing(pids) by {
            if n <= last {
                assert(stage_at(earlier, n) == StageView::Killing(pids));
            }
        }
        assert(earlier.take(j) =~= events.take(j));
        assert(earlier[j] == events[j]);
        (c, i, j)
    } else {
        let (c, i) = lemma_asking(earlier, pids);
        (c, i, last)
    };
    lemma_prefix(events, j);
    lemma_prefix(events.take(j), i);
    assert forall|n: int| c < n <= events.len() implies !(#[trigger] stage_at(
        events,
        n,
    ) is Binding) by {
        if n <= j {
            assert(stage_at(events.take(j), n) == stage_at(events, n));
            if n <= i {
                assert(stage_at(events.take(j).take(i), n) is Searching);
            }
        }
    }
    (c, i, j)
}

/// After the processes were killed the port is tried again.
pub proof fn port_is_tried_again_after_killing(pids: Seq<u32>)
    ensures
        stage_after(StageView::Killing(pids), BindEventView::Released) == StageView::Binding,
{
}

/// What frees the port in the course of some events does so in the course of more.
proof fn lemma_freed_in_more(
    events: Seq<BindEventView>,
    m: int,
    c: int,
    i: int,
    j: int,
    d: int,
    pids: Seq<u32>,
)
    requires
        0 <= m <= events.len(),
        freed(events.take(m), c, i, j, d, pids),
    ensures
        freed(events, c, i, j, d, pids),
{
    assert(events.take(m).take(d) =~= events.take(d));
    assert(events.take(m)[d] == events[d]);
}

/// The port is tried again only after what held it at each earlier attempt was killed with the
/// consent of the user.
pub proof fn port_is_freed_between_attempts(events: Seq<BindEventView>, c: int, b: int)
    requires
        attempt(events, c),
        c < b <= events.len(),
        stage_at(events, b) is Binding,
    ensures
        events[c] is InUse,
        freed_before(events, c, b),
    decreases b,
{
    let last = b - 1;
    let upto = events.take(b);
    let earlier = events.take(last);
    lemma_last_stage(upto);
    lemma_prefix(events, b);
    lemma_prefix(events, last);
    assert(upto.take(last) =~= earlier);
    assert(upto[last] == events[last]);
    if stage_at(events, last) is Binding {
        port_is_freed_between_attempts(events, c, last);
    } else {
        let pids = stage_at(events, last)->Killing_0;
        let (a, i, j) = kills_only_what_the_user_agreed_to(earlier, pids);
        lemma_prefix(earlier, j);
        lemma_prefix(earlier.take(j), i);
        assert(earlier.take(j).take(i) =~= events.take(i));
        lemma_prefix(events, i);
        assert(attempt(events.take(i), a));
        assert(stage_at(events.take(i), a) == stage_at(events, a));
        assert(events.take(i)[a] == events[a]);
        if c > a {
            assert(stage_at(earlier, c) == stage_at(events, c));
        }
        assert(freed(events, a, i, j, last, pids));
        if c < a {
            port_is_freed_between_attempts(events, c, a);
        }
    }
}

/// The port is bound, or the program ends.
pub open spec fn is_outcome(stage: StageView) -> bool {
    stage is Serving || stage is Exiting
}

/// Once the port is bound or the program ends, no event changes that.
pub proof fn outcomes_stay(stage: StageView, event: BindEventView)
    requires
        is_outcome(stage),
    ensures
        stage_after(stage, event) == stage,
{
}

/// An outcome lasts.
proof fn lemma_outcome_lasts(events: Seq<BindEventView>, n: int)
    requires
        0 <= n <= events.len(),
        is_outcome(stage_at(events, n)),
    ensures
        stage_after_all(events) == stage_at(events, n),
    decreases events.len(),
{
    lemma_last_stage(events);
    if n < events.len() {
        let last = events.len() - 1;
        lemma_prefix(events, last);
        assert(stage_at(events.take(last), n) == stage_at(events, n));
        lemma_outcome_lasts(events.take(last), n);
    }
}

/// The stage after the event at `n`.
proof fn lemma_step(events: Seq<BindEventView>, n: int)
    requires
        0 <= n < events.len(),
    ensures
        stage_at(events, n + 1) == stage_after(stage_at(events, n), events[n]),
{
    lemma_last_stage(events.take(n + 1));
    lemma_prefix(events, n + 1);
    assert(events.take(n + 1)[n] == events[n]);
    assert(stage_at(events.take(n + 1), n) == stage_at(events, n));
}

/// An outcome comes about at some event.
proof fn lemma_outcome_comes_about(events: Seq<BindEventView>) -> (n: int)
    requires
        is_outcome(stage_after_all(events)),
    ensures
        0 <= n < events.len(),
        !is_outcome(stage_at(events, n)),
        stage_after(stage_at(events, n), events[n]) == stage_after_all(events),
    decreases events.len(),
{
    let last = events.len() - 1;
    lemma_last_stage(events);
    lemma_prefix(events, last);
    if is_outcome(stage_at(events, last)) {
        let n = lemma_outcome_comes_about(events.take(last));
        assert(stage_at(events.take(last), n) == stage_at(events, n));
        assert(events.take(last)[n] == events[n]);
        n
    } else {
        last
    }
}

/// The attempt at `b` bound the port, and at every earlier one it was in use by known processes
/// that were killed with the consent of the user.
pub open spec fn bound_at(events: Seq<BindEventView>, b: int) -> bool {
    &&& attempt(events, b)
    &&& events[b] is Bound
    &&& forall|c: int| #[trigger]
        attempt(events, c) && c < b ==> events[c] is InUse && freed_before(events, c, b)
}

/// At `n` the user was asked about these processes and declined.
pub open spec fn declined_at(events: Seq<BindEventView>, n: int) -> bool {
    0 <= n < events.len() && stage_at(events, n) is Asking && is_refusal(events[n])
}

/// At `n` the port could not be bound for a reason other than that it is in use, or the user
/// asked to kill and no process was known.
pub open spec fn hopeless_at(events: Seq<BindEventView>, n: int) -> bool {
    ||| attempt(events, n) && events[n] is Refused
    ||| 0 <= n < events.len() && stage_at(events, n) == StageView::Asking(seq![]) && is_consent(
        events[n],
    )
}

/// The server runs if and only if some attempt bound the port, and what held it at every earlier
/// attempt was killed with the consent of the user. The program ends with code 0 if and only if
/// the user declined, and with code 1 if and only if the port was refused, or the user asked to
/// kill and no process was known. There are no other codes.
pub proof fn outcomes_have_their_causes(events: Seq<BindEventView>)
    ensures
        stage_after_all(events) is Serving <==> exists|b: int| #[trigger] bound_at(events, b),
        stage_after_all(events) == StageView::Exiting(0) <==> exists|n: int| #[trigger]
            declined_at(events, n),
        stage_after_all(events) == StageView::Exiting(1) <==> exists|n: int| #[trigger]
            hopeless_at(events, n),
        stage_after_all(events) matches StageView::Exiting(code) ==> code == 0 || code == 1,
{
    if is_outcome(stage_after_all(events)) {
        let n = lemma_outcome_comes_about(events);
        if stage_after_all(events) is Serving {
            assert forall|c: int| #[trigger] attempt(events, c) && c < n implies events[c] is InUse
                && freed_before(events, c, n) by {
                port_is_freed_between_attempts(events, c, n);
            }
            assert(bound_at(events, n));
        } else if stage_after_all(events) == StageView::Exiting(0) {
            assert(declined_at(events, n));
        } else {
            if stage_at(events, n) is Asking {
                assert(stage_at(events, n)->Asking_0 =~= seq![]);
            }
            assert(hopeless_at(events, n));
        }
    }
    assert forall|n: int|
        #![trigger bound_at(events, n)]
        bound_at(events, n) implies stage_after_all(events) is Serving by {
        lemma_step(events, n);
        lemma_outcome_lasts(events, n + 1);
    }
    assert forall|n: int| #[trigger] declined_at(events, n) implies stage_after_all(events)
        == StageView::Exiting(0) by {
        lemma_step(events, n);
        lemma_outcome_lasts(events, n + 1);
    }
    assert forall|n: int| #[trigger] hopeless_at(events, n) implies stage_after_all(events)
        == StageView::Exiting(1) by {
        lemma_step(events, n);
        lemma_outcome_lasts(events, n + 1);
    }
}

/// A line asks to kill if and only if it holds one character `k` or `K` and nothing but white space
/// around it. So every line with a character that is neither white space nor a `k` or `K` declines,
/// and so does every line with two characters that are no white space.
pub proof fn only_a_lone_k_asks_to_kill(line: Seq<char>)
    ensures
        consents(line) <==> exists|i: int|
            #![trigger line[i]]
            0 <= i < line.len() && (line[i] == 'k' || line[i] == 'K') && forall|j: int|
                0 <= j < line.len() && j != i ==> white_space(#[trigger] line[j]),
{
    reveal_strlit("k");
    reveal_strlit("K");
    let (i, j) = every_text_has_a_middle(line);
    if consents(line) {
        assert(trimmed(line).len() == 1);
        assert(line.subrange(i, j)[0] == line[i]);
        assert(line[i] == 'k' || line[i] == 'K');
    }
    if exists|i: int|
            #![trigger line[i]]
            0 <= i < line.len() && (line[i] == 'k' || line[i] == 'K') && forall|j: int|
                0 <= j < line.len() && j != i ==> white_space(#[trigger] line[j]) {
        let n = choose|i: int|
            #![trigger line[i]]
            0 <= i < line.len() && (line[i] == 'k' || line[i] == 'K') && forall|j: int|
                0 <= j < line.len() && j != i ==> white_space(#[trigger] line[j]);
        trimming_leaves_the_middle(line, n, n + 1);
        assert(line.subrange(n, n + 1) =~= seq![line[n]]);
        if line[n] == 'k' {
            assert("k"@ =~= seq!['k']);
        } else {
            assert("K"@ =~= seq!['K']);
        }
    }
}

/// The numbers of two lists of words, one after the other, are those of the first and then those
/// of the second. One word gives the number that it stands for, if it stands for one.
pub proof fn numbers_come_in_order(first: Seq<Seq<char>>, second: Seq<Seq<char>>, word: Seq<char>)
    ensures
        numbers_in(first + second) == numbers_in(first) + numbers_in(second),
        read_u32(word) matches Some(n) ==> numbers_in(seq![word]) == seq![n],
        read_u32(word) is None ==> numbers_in(seq![word]).len() == 0,
        numbers_in(Seq::<Seq<char>>::empty()).len() == 0,
    decreases second.len(),
{
    let one = seq![word];
    assert(one.drop_last() =~= Seq::<Seq<char>>::empty());
    assert(numbers_in(one.drop_last()).len() == 0);
    assert(one.last() == word);
    assert(read_u32(word) matches Some(n) ==> numbers_in(one) =~= seq![n]);
    if second.len() == 0 {
        assert(first + second =~= first);
        assert(numbers_in(first) + numbers_in(second) =~= numbers_in(first));
    } else {
        numbers_come_in_order(first, second.drop_last(), word);
        let both = first + second;
        assert(both.drop_last() =~= first + second.drop_last());
        assert(both.last() == second.last());
        assert(numbers_in(both) =~= numbers_in(first) + numbers_in(second));
    }
}

/// The processes that are named are the numbers in what `lsof` printed, in their order, and none
/// where it printed nothing.
pub proof fn processes_are_the_numbers_of_the_listing(bytes: Seq<u8>)
    ensures
        pids_of(Some(bytes)) == numbers_in(words(lossy_text(bytes))),
        pids_of(None).len() == 0,
{
}

/// One process is listed by its number, and of two lists the first comes first, with a comma and a
/// blank before the second.
pub proof fn processes_are_listed_in_order(first: Seq<u32>, second: Seq<u32>, pid: u32)
    ensures
        listed(seq![pid]) == decimal(pid as nat),
        first.len() > 0 && second.len() > 0 ==> listed(first + second) == listed(first) + ", "@
            + listed(second),
        pid_info(Seq::<u32>::empty()) == "unknown process"@,
        first.len() > 0 ==> pid_info(first) == listed(first),
    decreases second.len(),
{
    if first.len() > 0 && second.len() > 0 {
        let both = first + second;
        assert(both.last() == second.last());
        if second.len() == 1 {
            assert(both.drop_last() =~= first);
        } else {
            let fewer = second.drop_last();
            processes_are_listed_in_order(first, fewer, pid);
            assert(both.drop_last() =~= first + fewer);
            assert(listed(first) + ", "@ + listed(fewer) + ", "@ + decimal(second.last() as nat)
                =~= listed(first) + ", "@ + (listed(fewer) + ", "@ + decimal(second.last() as nat)));
        }
    }
}

/// The views of stages and events show all that these hold.
pub proof fn views_show_all(pids: Vec<u32>, code: i32, bytes: Vec<u8>, line: String)
    ensures
        Stage::Binding@ == StageView::Binding,
        Stage::Searching@ == StageView::Searching,
        Stage::Asking(pids)@ == StageView::Asking(pids@),
        Stage::Killing(pids)@ == StageView::Killing(pids@),
        Stage::Serving@ == StageView::Serving,
        Stage::Exiting(code)@ == StageView::Exiting(code),
        BindEvent::Bound@ == BindEventView::Bound,
        BindEvent::InUse@ == BindEventView::InUse,
        BindEvent::Refused@ == BindEventView::Refused,
        BindEvent::Listed(Some(bytes))@ == BindEventView::Listed(Some(bytes@)),
        BindEvent::Listed(None)@ == BindEventView::Listed(None),
        BindEvent::Answer(line)@ == BindEventView::Answer(line@),
        BindEvent::Released@ == BindEventView::Released,
{
}

} // verus!
