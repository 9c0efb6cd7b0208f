use ksynth::schema::{parse_time, parse_time_at, parse_u64, Time, TimeError, TimeOverflow};
use ksynth::time::Duration;

fn chars(s: &str) -> Vec<char> {
    s.chars().collect()
}

fn from_yaml(text: &str) -> Result<Time, TimeError> {
    match serde_yaml::from_str::<serde_yaml::Value>(text).unwrap() {
        serde_yaml::Value::Number(n) => Ok(Time::from_secs(n.as_u64().unwrap())),
        serde_yaml::Value::String(s) => parse_time(&chars(&s)),
        other => panic!("not a time: {:?}", other),
    }
}

#[test]
fn time() {
    assert_eq!(Ok(Time(Duration::from_secs(10))), from_yaml("10"));
    assert_eq!(Ok(Time(Duration::from_secs(10))), from_yaml(r#""10""#));
    assert_eq!(Ok(Time(Duration::from_secs(10))), from_yaml("10s"));
    assert_eq!(Ok(Time(Duration::from_millis(10))), from_yaml("10ms"));
    assert_eq!(Ok(Time(Duration::from_micros(10))), from_yaml("10us"));
    assert_eq!(Ok(Time(Duration::from_nanos(10))), from_yaml("10ns"));
}

#[test]
fn time_errors() {
    assert_eq!(Err(TimeError::InvalidCount), parse_time(&chars("")));
    assert_eq!(Err(TimeError::InvalidCount), parse_time(&chars("ms")));
    assert_eq!(Err(TimeError::InvalidCount), parse_time(&chars("1.5s")));
    assert_eq!(Err(TimeError::InvalidCount), parse_time(&chars("-3s")));
    assert_eq!(Err(TimeError::InvalidUnit), parse_time(&chars("10h")));
    assert_eq!(Err(TimeError::InvalidCount), parse_time(&chars("10 s")));
    assert_eq!(Err(TimeError::InvalidUnit), parse_time(&chars("10sec")));
    assert_eq!(Err(TimeError::InvalidUnit), parse_time(&chars("10MS")));
}

#[test]
fn time_split_given() {
    let text = chars("25us");
    assert_eq!(Ok(Time(Duration::from_micros(25))), parse_time_at(&text, Some(2)));
    assert_eq!(Ok(Time(Duration::from_secs(7))), parse_time_at(&chars("7"), None));
    assert_eq!(Err(TimeError::InvalidCount), parse_time_at(&text, None));
    assert_eq!(Err(TimeError::InvalidUnit), parse_time_at(&text, Some(1)));
}

#[test]
fn unsigned_parse() {
    assert_eq!(Some(5), parse_u64(&chars("5")));
    assert_eq!(Some(5), parse_u64(&chars("+5")));
    assert_eq!(Some(7), parse_u64(&chars("007")));
    assert_eq!(None, parse_u64(&chars("+")));
    assert_eq!(None, parse_u64(&chars("")));
    assert_eq!(None, parse_u64(&chars("-1")));
    assert_eq!(None, parse_u64(&chars("1_000")));
    assert_eq!(Some(u64::MAX), parse_u64(&chars("18446744073709551615")));
    assert_eq!(None, parse_u64(&chars("18446744073709551616")));
}

#[test]
fn time_conversions() {
    let t = Time(Duration::from_millis(1500));
    assert_eq!(1, t.as_secs());
    assert_eq!(Ok(1_500_000), t.as_micros());
    assert_eq!(Ok(1500), t.as_millis());
    let big = Time(Duration::from_secs(u64::MAX));
    assert_eq!(Err(TimeOverflow), big.as_micros());
    assert_eq!(Err(TimeOverflow), big.as_millis());
    assert_eq!(Time(Duration::from_secs(3)), Time::from_secs(3));
}
