//! The ingestion sequencer: a logical clock, and the order in which each
//! event's data record and consistency record are sent.

use vstd::prelude::*;
use vstd::string::*;

verus! {

/// The partition that all data and consistency traffic goes to.
pub const PARTITION: i32 = 0;

pub open spec fn digit_char(d: nat) -> char {
    if d == 0 {
        '0'
    } else if d == 1 {
        '1'
    } else if d == 2 {
        '2'
    } else if d == 3 {
        '3'
    } else if d == 4 {
        '4'
    } else if d == 5 {
        '5'
    } else if d == 6 {
        '6'
    } else if d == 7 {
        '7'
    } else if d == 8 {
        '8'
    } else {
        '9'
    }
}

/// The decimal digits of `n`, without leading zeros.
pub open spec fn decimal(n: nat) -> Seq<char>
    decreases n,
{
    if n < 10 {
        seq![digit_char(n)]
    } else {
        decimal(n / 10).push(digit_char(n % 10))
    }
}

/// The consistency value for the event stamped `ts` in `topic`: the
/// half-open interval `[ts, ts + 1)` of the topic's single partition.
pub open spec fn consistency_text(topic: Seq<char>, ts: nat) -> Seq<char> {
    topic + ",1,0,"@ + decimal(ts) + ","@ + decimal(ts + 1)
}

fn digit_str(d: u64) -> (r: &'static str)
    requires
        d < 10,
    ensures
        r@ == seq![digit_char(d as nat)],
{
    proof {
        reveal_strlit("0");
        reveal_strlit("1");
        reveal_strlit("2");
        reveal_strlit("3");
        reveal_strlit("4");
        reveal_strlit("5");
        reveal_strlit("6");
        reveal_strlit("7");
        reveal_strlit("8");
        reveal_strlit("9");
    }
    if d == 0 {
        "0"
    } else if d == 1 {
        "1"
    } else if d == 2 {
        "2"
    } else if d == 3 {
        "3"
    } else if d == 4 {
        "4"
    } else if d == 5 {
        "5"
    } else if d == 6 {
        "6"
    } else if d == 7 {
        "7"
    } else if d == 8 {
        "8"
    } else {
        "9"
    }
}

/// Appends the decimal digits of `n` to `out`.
pub fn push_decimal(out: &mut String, n: u64)
    ensures
        final(out)@ == old(out)@ + decimal(n as nat),
    decreases n,
{
    if n >= 10 {
        push_decimal(out, n / 10);
    }
    out.append(digit_str(n % 10));
}

/// The consistency value `"<topic>,1,0,<ts>,<ts+1>"`.
pub fn consistency_value(topic: &str, ts: u64) -> (r: String)
    requires
        ts < u64::MAX,
    ensures
        r@ == consistency_text(topic@, ts as nat),
{
    let mut out = String::from_str(topic);
    out.append(",1,0,");
    push_decimal(&mut out, ts);
    out.append(",");
    push_decimal(&mut out, ts + 1);
    proof {
        reveal_strlit(",1,0,");
        reveal_strlit(",");
        assert(out@ =~= consistency_text(topic@, ts as nat));
    }
    out
}

} // verus!

verus! {

/// One record to hand to the producer.
#[derive(Debug)]
pub struct OutgoingRecord {
    pub topic: String,
    pub partition: i32,
    pub key: Option<String>,
    pub value: Option<String>,
}

/// A failed send, with the producer's message.
#[derive(Debug)]
pub struct SendError {
    pub message: String,
}

/// Where the event in flight stands.
#[derive(Debug)]
pub enum Stage {
    /// No event in flight; the next one may begin.
    Idle,
    /// The data record was handed out and its send not yet reported.
    AwaitingData,
    /// The data send succeeded; the consistency record was handed out.
    AwaitingConsistency,
    /// A send failed: the sequencer accepts nothing more.
    Failed,
}

/// Owns the logical clock and enforces, for each event, that its data record
/// is acknowledged before its consistency record is issued, and that the
/// clock advances only once both were acknowledged.
pub struct Sequencer {
    data_topic: String,
    consistency_topic: String,
    clock: u64,
    stage: Stage,
    /// The clock values of the events sequenced so far, in order.
    stamps: Ghost<Seq<nat>>,
}

impl Sequencer {
    pub closed spec fn data_topic_spec(&self) -> Seq<char> {
        self.data_topic@
    }

    pub closed spec fn consistency_topic_spec(&self) -> Seq<char> {
        self.consistency_topic@
    }

    /// The logical clock: the number of events fully sequenced.
    pub closed spec fn clock_spec(&self) -> nat {
        self.clock as nat
    }

    pub closed spec fn stage_spec(&self) -> Stage {
        self.stage
    }

    /// The clock values used by the events sequenced so far, in order.
    pub closed spec fn stamps_spec(&self) -> Seq<nat> {
        self.stamps@
    }

    pub closed spec fn wf(&self) -> bool {
        &&& self.stamps@.len() == self.clock
        &&& forall|i: int| 0 <= i < self.stamps@.len() ==> #[trigger] self.stamps@[i] == i
    }

    /// A sequencer for one data topic and its consistency topic, clock at zero.
    pub fn new(data_topic: String, consistency_topic: String) -> (r: Sequencer)
        ensures
            r.wf(),
            r.data_topic_spec() == data_topic@,
            r.consistency_topic_spec() == consistency_topic@,
            r.clock_spec() == 0,
            r.stage_spec() == Stage::Idle,
            r.stamps_spec() == Seq::<nat>::empty(),
    {
        Sequencer { data_topic, consistency_topic, clock: 0, stage: Stage::Idle, stamps: Ghost(Seq::empty()) }
    }

    pub fn clock(&self) -> (r: u64)
        ensures
            r == self.clock_spec(),
    {
        self.clock
    }

    pub fn stage(&self) -> (r: Stage)
        ensures
            r == self.stage_spec(),
    {
        match self.stage {
            Stage::Idle => Stage::Idle,
            Stage::AwaitingData => Stage::AwaitingData,
            Stage::AwaitingConsistency => Stage::AwaitingConsistency,
            Stage::Failed => Stage::Failed,
        }
    }

    /// Begins an event: returns its data record, for partition zero of the
    /// data topic. The clock is not touched.
    pub fn begin_event(&mut self, key: String, value: Option<String>) -> (r: OutgoingRecord)
        requires
            old(self).wf(),
            old(self).stage_spec() == Stage::Idle,
        ensures
            final(self).wf(),
            final(self).stage_spec() == Stage::AwaitingData,
            final(self).clock_spec() == old(self).clock_spec(),
            final(self).stamps_spec() == old(self).stamps_spec(),
            final(self).data_topic_spec() == old(self).data_topic_spec(),
            final(self).consistency_topic_spec() == old(self).consistency_topic_spec(),
            r.topic@ == old(self).data_topic_spec(),
            r.partition == PARTITION,
            r.key == Some(key),
            r.value == value,
    {
        self.stage = Stage::AwaitingData;
        OutgoingRecord { topic: self.data_topic.clone(), partition: PARTITION, key: Some(key), value }
    }

    /// Takes the outcome of the data send. On success returns the consistency
    /// record for the current clock value; on failure the sequencer stops and
    /// the clock stays where it was.
    pub fn data_sent(&mut self, outcome: Result<(), String>) -> (r: Result<OutgoingRecord, SendError>)
        requires
            old(self).wf(),
            old(self).stage_spec() == Stage::AwaitingData,
            old(self).clock_spec() < u64::MAX,
        ensures
            final(self).wf(),
            final(self).clock_spec() == old(self).clock_spec(),
            final(self).stamps_spec() == old(self).stamps_spec(),
            final(self).data_topic_spec() == old(self).data_topic_spec(),
            final(self).consistency_topic_spec() == old(self).consistency_topic_spec(),
            r is Ok <==> outcome is Ok,
            r is Ok ==> final(self).stage_spec() == Stage::AwaitingConsistency,
            r is Err ==> final(self).stage_spec() == Stage::Failed,
            outcome matches Err(m) ==> r matches Err(e) && e.message == m,
            r matches Ok(rec) ==> {
                &&& rec.topic@ == old(self).consistency_topic_spec()
                &&& rec.partition == PARTITION
                &&& rec.key is None
                &&& rec.value matches Some(v) && v@ == consistency_text(
                    old(self).data_topic_spec(),
                    old(self).clock_spec(),
                )
            },
    {
        match outcome {
            Ok(()) => {
                self.stage = Stage::AwaitingConsistency;
                let value = consistency_value(self.data_topic.as_str(), self.clock);
                Ok(
                    OutgoingRecord {
                        topic: self.consistency_topic.clone(),
                        partition: PARTITION,
                        key: None,
                        value: Some(value),
                    },
                )
            },
            Err(message) => {
                self.stage = Stage::Failed;
                Err(SendError { message })
            },
        }
    }

    /// Takes the outcome of the consistency send. On success the event is
    /// sequenced and the clock advances by one; on failure the sequencer
    /// stops and the clock stays where it was.
    pub fn consistency_sent(&mut self, outcome: Result<(), String>) -> (r: Result<(), SendError>)
        requires
            old(self).wf(),
            old(self).stage_spec() == Stage::AwaitingConsistency,
            old(self).clock_spec() < u64::MAX,
        ensures
            final(self).wf(),
            final(self).data_topic_spec() == old(self).data_topic_spec(),
            final(self).consistency_topic_spec() == old(self).consistency_topic_spec(),
            r is Ok <==> outcome is Ok,
            outcome matches Err(m) ==> r matches Err(e) && e.message == m,
            r is Ok ==> {
                &&& final(self).stage_spec() == Stage::Idle
                &&& final(self).clock_spec() == old(self).clock_spec() + 1
                &&& final(self).stamps_spec() == old(self).stamps_spec().push(old(self).clock_spec())
            },
            r is Err ==> {
                &&& final(self).stage_spec() == Stage::Failed
                &&& final(self).clock_spec() == old(self).clock_spec()
                &&& final(self).stamps_spec() == old(self).stamps_spec()
            },
    {
        match outcome {
            Ok(()) => {
                proof {
                    self.stamps@ = self.stamps@.push(self.clock as nat);
                }
                self.clock = self.clock + 1;
                self.stage = Stage::Idle;
                Ok(())
            },
            Err(message) => {
                self.stage = Stage::Failed;
                Err(SendError { message })
            },
        }
    }
}

/// The clock values of the events sequenced so far are exactly
/// `0, 1, ..., n - 1` for `n` events: no repeats and no gaps.
pub proof fn lemma_stamps_consecutive(s: Sequencer)
    requires
        s.wf(),
    ensures
        s.stamps_spec() =~= Seq::new(s.clock_spec(), |i: int| i as nat),
{
}

} // verus!

verus! {

/// The bytes sent for an optional key or value: its UTF-8 bytes, and no
/// bytes at all when it is absent.
pub fn wire_bytes(field: Option<&str>) -> (r: Vec<u8>)
    ensures
        field matches Some(s) ==> r@ == s.spec_bytes(),
        field is None ==> r@.len() == 0,
{
    match field {
        Some(s) => vstd::slice::slice_to_vec(s.as_bytes()),
        None => Vec::new(),
    }
}

} // verus!
