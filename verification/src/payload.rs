//! The batch payload: one record per sample, in the order of the batch.

use vstd::prelude::*;

use crate::civil_time::{local_time, local_time_of, CivilTime, YEAR_10000};
use crate::solar_data::{SampleView, SolarData};
use crate::text::{decimal_text, push_decimal};

verus! {

/// The text that every payload starts with: the version of the batch format
/// and the name of the parameter that carries the records.
pub open spec fn preamble() -> Seq<char> {
    seq!['c', '1', '=', '2', '&', 'd', 'a', 't', 'a', '=']
}

/// The record of one sample taken at the local time `local`:
/// `YYYYMMDD,HH:MM,-1,<power>,-1,-1,<temperature>,<voltage>;`.
pub open spec fn record_text(sample: SampleView, local: CivilTime) -> Seq<char> {
    local.date_text() + seq![','] + local.clock_text() + seq![',', '-', '1', ','] + decimal_text(
        sample.power_generation as nat,
    ) + seq![',', '-', '1', ',', '-', '1', ','] + sample.temperature + seq![',']
        + sample.voltage + seq![';']
}

/// The record of a sample, dated by the local time of its timestamp.
pub open spec fn sample_record(sample: SampleView) -> Seq<char> {
    record_text(sample, local_time_of(sample.timestamp).unwrap())
}

/// The records of a batch, one behind the other.
pub open spec fn records_text(samples: Seq<SampleView>) -> Seq<char>
    decreases samples.len(),
{
    if samples.len() == 0 {
        Seq::empty()
    } else {
        records_text(samples.drop_last()) + sample_record(samples.last())
    }
}

/// The payload of a batch.
pub open spec fn payload_text(samples: Seq<SampleView>) -> Seq<char> {
    preamble() + records_text(samples)
}

/// Every sample of the batch has a local time.
pub open spec fn all_have_local_time(samples: Seq<SampleView>) -> bool {
    forall|i: int|
        #![trigger samples[i]]
        0 <= i < samples.len() ==> local_time_of(samples[i].timestamp) is Some
}

/// Every sample of the batch was taken before the year 10000.
pub open spec fn all_before_year_10000(samples: Seq<SampleView>) -> bool {
    forall|i: int|
        #![trigger samples[i]]
        0 <= i < samples.len() ==> samples[i].timestamp < YEAR_10000
}

/// Writes the record of `sample`, dated `local`.
pub fn format_record(sample: &SolarData, local: &CivilTime) -> (record: String)
    ensures
        record@ == record_text(sample@, *local),
{
    let mut record = String::new();
    local.push_date(&mut record);
    record.push(',');
    local.push_clock(&mut record);
    proof {
        reveal_strlit(",-1,");
        reveal_strlit(",-1,-1,");
    }
    record.append(",-1,");
    push_decimal(&mut record, sample.power_generation as u64);
    record.append(",-1,-1,");
    record.append(sample.temperature.as_str());
    record.push(',');
    record.append(sample.voltage.as_str());
    record.push(';');
    record
}

/// Writes the payload of a batch: the preamble, then the record of each
/// sample in the order in which the batch holds them.
pub fn build_post_data(samples: &Vec<SolarData>) -> (payload: String)
    requires
        all_have_local_time(samples.deep_view()),
    ensures
        payload@ == payload_text(samples.deep_view()),
{
    let ghost batch = samples.deep_view();
    let mut payload = String::from_str("c1=2&data=");
    proof {
        reveal_strlit("c1=2&data=");
    }
    let mut i: usize = 0;
    while i < samples.len()
        invariant
            i <= samples.len(),
            batch == samples.deep_view(),
            all_have_local_time(batch),
            payload@ == payload_text(batch.take(i as int)),
        decreases samples.len() - i,
    {
        let sample = &samples[i];
        assert(batch[i as int] == sample@);
        let local = local_time(sample.timestamp).unwrap();
        let record = format_record(sample, &local);
        payload.append(record.as_str());
        assert(batch.take(i + 1).drop_last() == batch.take(i as int));
        i += 1;
    }
    assert(batch.take(i as int) == batch);
    payload
}

/// Writes the payload of a batch where every sample has a local time, and
/// nothing where one has none. Samples taken before the year 10000 all have
/// one.
pub fn try_build_post_data(samples: &Vec<SolarData>) -> (payload: Option<String>)
    ensures
        payload is Some <==> all_have_local_time(samples.deep_view()),
        payload matches Some(text) ==> text@ == payload_text(samples.deep_view()),
        all_before_year_10000(samples.deep_view()) ==> payload is Some,
{
    let ghost batch = samples.deep_view();
    let mut i: usize = 0;
    while i < samples.len()
        invariant
            i <= samples.len(),
            batch == samples.deep_view(),
            forall|k: int|
                #![trigger batch[k]]
                0 <= k < i ==> local_time_of(batch[k].timestamp) is Some,
        decreases samples.len() - i,
    {
        assert(batch[i as int] == samples[i as int]@);
        if local_time(samples[i].timestamp).is_none() {
            return None;
        }
        i += 1;
    }
    Some(build_post_data(samples))
}

/// Records keep the order of the batch: the records of a batch made of two
/// parts are the records of the first part followed by those of the second.
pub proof fn lemma_records_concat(first: Seq<SampleView>, second: Seq<SampleView>)
    ensures
        records_text(first + second) == records_text(first) + records_text(second),
    decreases second.len(),
{
    if second.len() > 0 {
        lemma_records_concat(first, second.drop_last());
        assert((first + second).drop_last() == first + second.drop_last());
    }
}

/// The record of the sample at place `i` stands in the payload right behind
/// the payload of the samples before it, and the records of the samples after
/// it follow.
pub proof fn lemma_record_in_order(samples: Seq<SampleView>, i: int)
    requires
        0 <= i < samples.len(),
    ensures
        payload_text(samples) == payload_text(samples.take(i)) + sample_record(samples[i])
            + records_text(samples.skip(i + 1)),
{
    let head = samples.take(i);
    let one = seq![samples[i]];
    let tail = samples.skip(i + 1);
    assert(samples == head + one + tail);
    lemma_records_concat(head + one, tail);
    lemma_records_concat(head, one);
    assert(records_text(one) == sample_record(samples[i])) by {
        assert(records_text(one.drop_last()) == Seq::<char>::empty());
    }
}

} // verus!
