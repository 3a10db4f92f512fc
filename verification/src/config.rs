//! Settings of the dashboard, and the clock and id sources it reads.

use vstd::prelude::*;

verus! {

/// The dashboard's settings, as plain values.
///
/// The temperature difference that raises an alarm is a floating-point
/// setting and is kept by the application beside this struct.
#[derive(Debug)]
pub struct Config {
    pub app_title: String,
    pub datetime_timezone: String,
    pub mqtt_broker_url: String,
    pub mqtt_user: String,
    pub mqtt_pass: String,
    pub mqtt_port: u16,
    pub mqtt_topic_base: String,
    pub mqtt_topic_error_suffix: String,
    pub mqtt_topic_wildcard: String,
    pub mqtt_client_id: String,
    pub topic_delimiter: String,
    pub topic_parts_count: usize,
    pub flag_show_bar_index: bool,
    pub flag_show_index: bool,
    pub flag_show_color: bool,
    pub flag_show_map_table_index: bool,
    pub default_empty_topic: String,
    pub default_empty_uuid: String,
    /// Milliseconds without data after which a device is removed.
    pub duration_limit_device_remove: i64,
    /// Milliseconds without data after which a device is marked for removal.
    pub duration_limit_device_remove_warn: i64,
    /// Milliseconds without data after which a device is marked unknown.
    pub duration_limit_device_unknown: i64,
    pub log_file: String,
}

impl Clone for Config {
    fn clone(&self) -> (c: Self)
        ensures
            c == *self,
    {
        Config {
            app_title: self.app_title.clone(),
            datetime_timezone: self.datetime_timezone.clone(),
            mqtt_broker_url: self.mqtt_broker_url.clone(),
            mqtt_user: self.mqtt_user.clone(),
            mqtt_pass: self.mqtt_pass.clone(),
            mqtt_port: self.mqtt_port,
            mqtt_topic_base: self.mqtt_topic_base.clone(),
            mqtt_topic_error_suffix: self.mqtt_topic_error_suffix.clone(),
            mqtt_topic_wildcard: self.mqtt_topic_wildcard.clone(),
            mqtt_client_id: self.mqtt_client_id.clone(),
            topic_delimiter: self.topic_delimiter.clone(),
            topic_parts_count: self.topic_parts_count,
            flag_show_bar_index: self.flag_show_bar_index,
            flag_show_index: self.flag_show_index,
            flag_show_color: self.flag_show_color,
            flag_show_map_table_index: self.flag_show_map_table_index,
            default_empty_topic: self.default_empty_topic.clone(),
            default_empty_uuid: self.default_empty_uuid.clone(),
            duration_limit_device_remove: self.duration_limit_device_remove,
            duration_limit_device_remove_warn: self.duration_limit_device_remove_warn,
            duration_limit_device_unknown: self.duration_limit_device_unknown,
            log_file: self.log_file.clone(),
        }
    }
}

#[verifier::external_type_specification]
#[verifier::external_body]
pub struct ExTimeDelta(chrono::TimeDelta);

/// A point in time: whole seconds since the Unix epoch and the nanoseconds
/// within that second (shown in the machine's time zone).
#[derive(Clone, Copy, Debug, PartialEq, Eq, Structural)]
pub struct DateTime {
    pub secs: i64,
    pub nanos: u32,
}

/// A span of time.
pub type Duration = chrono::TimeDelta;

/// The current time (`chrono::Local::now`).
///
/// Trusted, and nothing is claimed of the result: it is whatever the clock reads.
#[verifier::external_body]
pub fn now() -> DateTime {
    let t = chrono::Local::now();
    DateTime { secs: t.timestamp(), nanos: t.timestamp_subsec_nanos() }
}

/// Whether `c` is a lowercase hexadecimal digit.
pub open spec fn is_lower_hex(c: char) -> bool {
    ('0' <= c && c <= '9') || ('a' <= c && c <= 'f')
}

/// A fresh random identifier in its simple form
/// (`uuid::Uuid::new_v4().simple()`, as text).
///
/// Trusted: uuid writes the simple form as the 32 lowercase hexadecimal digits
/// of the identifier's 16 bytes. Which digits they are is random and not claimed.
#[verifier::external_body]
pub fn uuid() -> (s: String)
    ensures
        s@.len() == 32,
        forall|i: int| 0 <= i < 32 ==> is_lower_hex(#[trigger] s@[i]),
{
    ::uuid::Uuid::new_v4().simple().to_string()
}

/// The span chrono makes of `value` milliseconds.
pub uninterp spec fn millis_span(value: i64) -> Duration;

/// A span of `value` milliseconds (`chrono::TimeDelta::milliseconds`).
///
/// Trusted: chrono panics for `i64::MIN` milliseconds only, which `requires`
/// leaves out; otherwise the span depends on `value` alone.
#[verifier::external_body]
fn number_to_duration(value: i64) -> (d: Duration)
    requires
        value > i64::MIN,
    ensures
        d == millis_span(value),
{
    chrono::TimeDelta::milliseconds(value)
}

impl Config {
    /// The span without data after which a device is removed.
    pub fn duration_limit_device_remove(&self) -> (d: Duration)
        requires
            self.duration_limit_device_remove > i64::MIN,
        ensures
            d == millis_span(self.duration_limit_device_remove),
    {
        number_to_duration(self.duration_limit_device_remove)
    }

    /// The span without data after which a device is marked for removal.
    pub fn duration_limit_device_remove_warn(&self) -> (d: Duration)
        requires
            self.duration_limit_device_remove_warn > i64::MIN,
        ensures
            d == millis_span(self.duration_limit_device_remove_warn),
    {
        number_to_duration(self.duration_limit_device_remove_warn)
    }

    /// The span without data after which a device is marked unknown.
    pub fn duration_limit_device_unknown(&self) -> (d: Duration)
        requires
            self.duration_limit_device_unknown > i64::MIN,
        ensures
            d == millis_span(self.duration_limit_device_unknown),
    {
        number_to_duration(self.duration_limit_device_unknown)
    }
}

} // verus!
