use pvoutput_sync::civil_time::{local_time, CivilTime};
use pvoutput_sync::payload::{build_post_data, format_record, try_build_post_data};
use pvoutput_sync::solar_data::SolarData;

fn reading(id: u64, timestamp: u64, power: usize, temperature: &str, voltage: &str) -> SolarData {
    SolarData {
        id,
        device_id: 2,
        tracker_id: 1,
        timestamp,
        energy_generation: 0,
        power_generation: power,
        temperature: temperature.to_string(),
        voltage: voltage.to_string(),
    }
}

#[test]
fn winter_time_on_the_morning_of_the_spring_transition() {
    let local = local_time(1711845000).unwrap();
    assert_eq!(local, CivilTime { year: 2024, month: 3, day: 31, hour: 1, minute: 30 });
    let batch = vec![reading(1, 1711845000, 250, "21.5", "230.1")];
    assert_eq!(build_post_data(&batch), "c1=2&data=20240331,01:30,-1,250,-1,-1,21.5,230.1;");
}

#[test]
fn summer_time_after_the_spring_transition() {
    let local = local_time(1711848600).unwrap();
    assert_eq!(local, CivilTime { year: 2024, month: 3, day: 31, hour: 3, minute: 30 });
}

#[test]
fn record_of_given_local_time() {
    let sample = reading(7, 0, 1234, "-3.25", "0");
    let local = CivilTime { year: 2023, month: 1, day: 9, hour: 7, minute: 5 };
    assert_eq!(format_record(&sample, &local), "20230109,07:05,-1,1234,-1,-1,-3.25,0;");
}

#[test]
fn try_build_matches_build() {
    let batch = vec![reading(1, 1705320000, 0, "1", "2"), reading(2, 1705320060, 10, "3", "4")];
    assert_eq!(
        try_build_post_data(&batch),
        Some("c1=2&data=20240115,13:00,-1,0,-1,-1,1,2;20240115,13:01,-1,10,-1,-1,3,4;".to_string())
    );
}

#[test]
fn an_empty_batch_is_the_preamble_alone() {
    assert_eq!(build_post_data(&Vec::new()), "c1=2&data=");
    assert_eq!(try_build_post_data(&Vec::new()), Some("c1=2&data=".to_string()));
}

#[test]
fn records_keep_the_order_of_the_batch() {
    let batch: Vec<SolarData> =
        (1..=5u64).map(|k| reading(k, 1705320000 + 3600 * k, k as usize, "1", "2")).collect();
    let payload = build_post_data(&batch);
    let records: Vec<&str> = payload["c1=2&data=".len()..].split_terminator(';').collect();
    assert_eq!(
        records,
        vec![
            "20240115,14:00,-1,1,-1,-1,1,2",
            "20240115,15:00,-1,2,-1,-1,1,2",
            "20240115,16:00,-1,3,-1,-1,1,2",
            "20240115,17:00,-1,4,-1,-1,1,2",
            "20240115,18:00,-1,5,-1,-1,1,2",
        ]
    );
    assert!(payload.ends_with(';'));
    let reversed: Vec<SolarData> = batch.iter().rev().cloned().collect();
    let back = build_post_data(&reversed);
    let mut turned: Vec<&str> = back["c1=2&data=".len()..].split_terminator(';').collect();
    turned.reverse();
    assert_eq!(turned, records);
}

#[test]
fn payload_of_a_batch_is_the_payload_of_its_parts() {
    let batch: Vec<SolarData> =
        (1..=4u64).map(|k| reading(k, 1705320000 + 60 * k, 7, "0.5", "12")).collect();
    let whole = build_post_data(&batch);
    let head = build_post_data(&batch[..2].to_vec());
    let tail = build_post_data(&batch[2..].to_vec());
    assert_eq!(whole, format!("{}{}", head, &tail["c1=2&data=".len()..]));
}

#[test]
fn energy_is_not_written() {
    let mut a = reading(1, 1705320000, 5, "1", "2");
    let mut b = a.clone();
    a.energy_generation = 1;
    b.energy_generation = 999;
    assert_eq!(build_post_data(&vec![a]), build_post_data(&vec![b]));
}

#[test]
fn readings_are_written_as_given() {
    let sample = reading(1, 1705320000, usize::MAX, "NaN", "-inf");
    let local = CivilTime { year: 10000, month: 12, day: 31, hour: 23, minute: 59 };
    assert_eq!(
        format_record(&sample, &local),
        format!("+100001231,23:59,-1,{},-1,-1,NaN,-inf;", usize::MAX)
    );
}

#[test]
fn a_batch_with_a_sample_without_local_time_has_no_payload() {
    let batch = vec![reading(1, 1705320000, 1, "1", "2"), reading(2, 1u64 << 63, 1, "1", "2")];
    assert_eq!(try_build_post_data(&batch), None);
}
