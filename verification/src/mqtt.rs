//! What arrives from the broker: topics, measurement payloads and the
//! common log of text messages.

use vstd::prelude::*;

use crate::config::{now, uuid, is_lower_hex, Config, DateTime};
use crate::text::{
    contains_seq, join_parts, join_seq, push_char, split_chars, split_seq,
    str_contains, to_chars, views,
};

verus! {

/// Cells per side of the sensor's square grid.
pub const LEN: usize = 8;

/// Cells of the sensor's grid.
pub const POW: usize = LEN * LEN;

/// Bytes that encode one cell.
pub const CHUNK_SIZE: usize = 4;

/// Bytes of one measurement payload.
pub const MQTT_PAYLOAD_SIZE: usize = POW * CHUNK_SIZE;

/// The most messages the common log keeps.
pub const COMMON_LOG_CAPACITY: usize = 40;

#[verifier::external_type_specification]
#[verifier::external_body]
pub struct ExBytes(bytes::Bytes);

/// The bytes held by a `bytes::Bytes`.
pub uninterp spec fn bytes_content(b: bytes::Bytes) -> Seq<u8>;

/// The bytes of `b`, copied into a vector (`<[u8]>::to_vec` through `Deref`).
///
/// Trusted: the copy holds the same bytes in the same order.
#[verifier::external_body]
fn bytes_to_vec(b: &bytes::Bytes) -> (v: Vec<u8>)
    ensures
        v@ == bytes_content(*b),
{
    b.to_vec()
}

/// Each byte read as the character with the same code (Latin-1).
pub open spec fn latin1(bytes: Seq<u8>) -> Seq<char> {
    bytes.map_values(|b: u8| b as char)
}

/// A line of the common log: when it was written, and its text.
pub struct CommonMsg {
    pub datetime: DateTime,
    pub entry: String,
}

impl Clone for CommonMsg {
    fn clone(&self) -> (m: Self)
        ensures
            m == *self,
    {
        Self { datetime: self.datetime, entry: self.entry.clone() }
    }
}

impl Default for CommonMsg {
    /// A message written now, with placeholder text.
    fn default() -> (m: Self)
        ensures
            m.entry@ == "default_entry"@,
    {
        Self { datetime: now(), entry: String::from_str("default_entry") }
    }
}

impl CommonMsg {
    /// A message written now whose text is the payload, byte by byte.
    pub fn new(data: bytes::Bytes) -> (m: Self)
        ensures
            m.entry@ == latin1(bytes_content(data)),
    {
        let raw = bytes_to_vec(&data);
        let mut entry = String::new();
        let mut i: usize = 0;
        while i < raw.len()
            invariant
                i <= raw@.len(),
                entry@ == latin1(raw@.take(i as int)),
            decreases raw@.len() - i,
        {
            push_char(&mut entry, raw[i] as char);
            i = i + 1;
            assert(latin1(raw@.take(i as int)) =~= latin1(raw@.take(i - 1)).push(
                raw@[i - 1] as char,
            ));
        }
        assert(raw@.take(raw@.len() as int) =~= raw@);
        Self { datetime: now(), entry }
    }

    /// A message written now with the given text.
    pub fn record(entry: String) -> (m: Self)
        ensures
            m.entry == entry,
    {
        Self { datetime: now(), entry }
    }

    /// The line shown in the log: the time, `" --> "`, the text.
    pub fn render(&self) -> (r: String)
        ensures
            exists|t: Seq<char>| t.len() > 0 && r@ == t + " --> "@ + self.entry@,
    {
        let mut r = datetime_text(&self.datetime);
        let ghost t = r@;
        r.append(" --> ");
        r.append(self.entry.as_str());
        assert(r@ == t + " --> "@ + self.entry@);
        r
    }
}

/// The time shown in the machine's time zone (`Display` of `chrono::DateTime<Local>`).
///
/// Trusted: chrono writes at least the date, and the fallback for a time
/// chrono cannot place writes the seconds, so the text is never empty. What
/// it says is not claimed: it depends on the machine's time zone.
#[verifier::external_body]
fn datetime_text(t: &DateTime) -> (s: String)
    ensures
        s@.len() > 0,
{
    match chrono::TimeZone::timestamp_opt(&chrono::Local, t.secs, t.nanos) {
        chrono::LocalResult::Single(d) | chrono::LocalResult::Ambiguous(d, _) => format!("{}", d),
        chrono::LocalResult::None => format!("{}", t.secs),
    }
}

/// The newest `COMMON_LOG_CAPACITY` messages of a log.
pub open spec fn kept_logs(logs: Seq<CommonMsg>) -> Seq<CommonMsg> {
    if logs.len() > COMMON_LOG_CAPACITY {
        logs.take(COMMON_LOG_CAPACITY as int)
    } else {
        logs
    }
}

/// Adding a message and then truncating leaves the message first, the
/// previous messages after it in order, and at most `COMMON_LOG_CAPACITY`
/// messages in all.
pub proof fn law_add_then_truncate(logs: Seq<CommonMsg>, msg: CommonMsg)
    ensures
        kept_logs(seq![msg] + logs).len() <= COMMON_LOG_CAPACITY,
        kept_logs(seq![msg] + logs)[0] == msg,
        forall|i: int|
            1 <= i < kept_logs(seq![msg] + logs).len() ==> #[trigger] kept_logs(
                seq![msg] + logs,
            )[i] == logs[i - 1],
{
}

/// The common log, newest message first.
pub struct CommonLog {
    pub logs: std::collections::VecDeque<CommonMsg>,
}

impl Default for CommonLog {
    fn default() -> (l: Self)
        ensures
            l.logs@.len() == 0,
    {
        Self { logs: std::collections::VecDeque::with_capacity(COMMON_LOG_CAPACITY) }
    }
}

impl CommonLog {
    /// Keeps the newest `COMMON_LOG_CAPACITY` messages.
    pub fn truncate(&mut self)
        ensures
            final(self).logs@ == kept_logs(old(self).logs@),
    {
        self.logs.truncate(COMMON_LOG_CAPACITY);
    }

    /// Puts a message in front of the log.
    pub fn add(&mut self, msg: CommonMsg)
        ensures
            final(self).logs@ == seq![msg] + old(self).logs@,
    {
        self.logs.push_front(msg);
    }
}

/// `x` appended to the path `p` the way `PathBuf::push` does on Unix: an
/// absolute `x` replaces `p`; otherwise a `/` goes between them unless `p` is
/// empty or already ends in `/`.
pub open spec fn path_push(p: Seq<char>, x: Seq<char>) -> Seq<char> {
    if x.len() > 0 && x[0] == '/' {
        x
    } else if p.len() > 0 && p.last() != '/' {
        p + "/"@ + x
    } else {
        p + x
    }
}

/// `base` with each of `parts` pushed on in turn.
pub open spec fn topic_path(base: Seq<char>, parts: Seq<Seq<char>>) -> Seq<char>
    decreases parts.len(),
{
    if parts.len() == 0 {
        base
    } else {
        path_push(topic_path(base, parts.drop_last()), parts.last())
    }
}

/// The character views of a slice of string slices.
pub open spec fn str_views(parts: Seq<&str>) -> Seq<Seq<char>> {
    parts.map_values(|p: &str| p@)
}

fn path_push_str(p: String, x: &str) -> (r: String)
    ensures
        r@ == path_push(p@, x@),
{
    let xl = x.unicode_len();
    if xl > 0 && x.get_char(0) == '/' {
        return String::from_str(x);
    }
    let pl = p.as_str().unicode_len();
    let mut r = p;
    if pl > 0 && r.as_str().get_char(pl - 1) != '/' {
        r.append("/");
    }
    r.append(x);
    r
}

/// The topic made of `base` and `parts` as path segments.
pub fn create_topic(base: &str, parts: &[&str]) -> (r: String)
    ensures
        r@ == topic_path(base@, str_views(parts@)),
{
    let mut r = path_push_str(String::new(), base);
    assert(str_views(parts@).take(0) =~= Seq::<Seq<char>>::empty());
    let mut i: usize = 0;
    while i < parts.len()
        invariant
            i <= parts@.len(),
            r@ == topic_path(base@, str_views(parts@).take(i as int)),
        decreases parts@.len() - i,
    {
        r = path_push_str(r, parts[i]);
        i = i + 1;
        assert(str_views(parts@).take(i as int).drop_last() =~= str_views(parts@).take(i - 1));
    }
    assert(str_views(parts@).take(i as int) =~= str_views(parts@));
    r
}

/// A client id: `prefix`, `_` and a fresh random identifier.
pub fn uniq_id(prefix: &str) -> (r: String)
    ensures
        r@.len() == prefix@.len() + 33,
        r@.take(prefix@.len() + 1int) == prefix@ + "_"@,
        forall|i: int| prefix@.len() + 1 <= i < r@.len() ==> is_lower_hex(#[trigger] r@[i]),
{
    let id = uuid();
    let mut r = String::from_str(prefix);
    r.append("_");
    proof {
        reveal_strlit("_");
    }
    let ghost head = r@;
    r.append(id.as_str());
    assert(r@.take(prefix@.len() + 1int) =~= head);
    assert forall|i: int| prefix@.len() + 1 <= i < r@.len() implies is_lower_hex(#[trigger] r@[i]) by {
        assert(r@[i] == id@[i - prefix@.len() - 1]);
    }
    r
}

/// The parent topic and the device id of a measurement topic: the topic must
/// split at the delimiter into exactly `topic_parts_count` pieces; the last
/// is the id, the others joined back with the delimiter are the parent.
pub open spec fn verified_topic(topic: Seq<char>, config: Config) -> Option<(Seq<char>, Seq<char>)> {
    let d = config.topic_delimiter@;
    let parts = split_seq(topic, d);
    if parts.len() == config.topic_parts_count {
        Some((join_seq(parts.take(parts.len() - 1), d), parts.last()))
    } else {
        None
    }
}

/// The character views of an optional pair of strings.
pub open spec fn pair_view(r: Option<(String, String)>) -> Option<(Seq<char>, Seq<char>)> {
    match r {
        Some((a, b)) => Some((a@, b@)),
        None => None,
    }
}

/// Splits a measurement topic into its parent topic and device id.
pub fn verify_topic(topic: &str, config: &Config) -> (r: Option<(String, String)>)
    ensures
        pair_view(r) == verified_topic(topic@, *config),
{
    let t = to_chars(topic);
    let d = to_chars(config.topic_delimiter.as_str());
    let parts = split_chars(&t, &d);
    let count = parts.len();
    proof {
        crate::text::lemma_split_nonempty(topic@, config.topic_delimiter@);
    }
    if count == config.topic_parts_count {
        let id = parts[count - 1].clone();
        let parent = join_parts(&parts, count - 1, config.topic_delimiter.as_str());
        assert(views(parts@).last() == parts@[count - 1]@);
        Some((parent, id))
    } else {
        None
    }
}

/// When the topic splits into at least two pieces, the parent, the delimiter
/// and the id put together give back the topic.
pub proof fn law_verify_topic_rebuilds(topic: Seq<char>, config: Config)
    requires
        config.topic_parts_count >= 2,
        verified_topic(topic, config) is Some,
    ensures
        ({
            let (parent, id) = verified_topic(topic, config)->0;
            parent + config.topic_delimiter@ + id == topic
        }),
{
    let d = config.topic_delimiter@;
    let parts = split_seq(topic, d);
    crate::text::law_join_undoes_split(topic, d);
    crate::text::lemma_join_push(parts.take(parts.len() - 1), parts.last(), d);
    assert(parts.take(parts.len() - 1).push(parts.last()) =~= parts);
}

/// A topic made of a parent, a one-character delimiter and an id free of the
/// delimiter splits back into that parent and id, when the parent has one
/// piece fewer than the topics the dashboard expects.
pub proof fn law_verify_topic_of_joined(parent: Seq<char>, id: Seq<char>, config: Config)
    requires
        config.topic_delimiter@.len() == 1,
        !contains_seq(id, config.topic_delimiter@),
        split_seq(parent, config.topic_delimiter@).len() + 1 == config.topic_parts_count,
    ensures
        verified_topic(parent + config.topic_delimiter@ + id, config) == Some((parent, id)),
{
    let d = config.topic_delimiter@;
    crate::text::lemma_split_append(parent, d, id);
    crate::text::law_join_undoes_split(parent, d);
    let parts = split_seq(parent + d + id, d);
    assert(parts.take(parts.len() - 1) =~= split_seq(parent, d));
}

/// The key under which a measurement's device is kept, and the device id:
/// the parent topic, or the whole topic for simulated devices.
pub open spec fn device_topic(topic: Seq<char>, config: Config) -> Option<(Seq<char>, Seq<char>)> {
    match verified_topic(topic, config) {
        Some((parent, id)) => Some(
            (if contains_seq(parent, "simulator"@) {
                topic
            } else {
                parent
            }, id),
        ),
        None => None,
    }
}

/// The key and the device id of a measurement topic, if the topic is well formed.
pub fn resolve_device(topic: &str, config: &Config) -> (r: Option<(String, String)>)
    ensures
        pair_view(r) == device_topic(topic@, *config),
{
    match verify_topic(topic, config) {
        Some((parent, id)) => {
            if str_contains(parent.as_str(), "simulator") {
                Some((String::from_str(topic), id))
            } else {
                Some((parent, id))
            }
        },
        None => None,
    }
}

/// What an incoming publication is.
#[derive(Debug, Clone, Copy, PartialEq, Eq, Structural)]
pub enum Incoming {
    /// A measurement of a device, to be decoded.
    Measurement,
    /// A text message for the common log.
    Message,
    /// Neither: reported and dropped.
    Invalid,
}

/// A publication under the base topic with a payload of the right size is a
/// measurement; one on the error topic is a message; any other is invalid.
pub open spec fn incoming_kind(
    topic: Seq<char>,
    payload_len: int,
    topic_base: Seq<char>,
    topic_error: Seq<char>,
) -> Incoming {
    if contains_seq(topic, topic_base) && payload_len == MQTT_PAYLOAD_SIZE {
        Incoming::Measurement
    } else if topic == topic_error {
        Incoming::Message
    } else {
        Incoming::Invalid
    }
}

/// Tells what an incoming publication is.
pub fn classify_publish(topic: &str, payload_len: usize, topic_base: &str, topic_error: &str) -> (r:
    Incoming)
    ensures
        r == incoming_kind(topic@, payload_len as int, topic_base@, topic_error@),
        r == Incoming::Measurement ==> payload_len == MQTT_PAYLOAD_SIZE,
        topic@ == topic_error@ && payload_len != MQTT_PAYLOAD_SIZE ==> r == Incoming::Message,
{
    if str_contains(topic, topic_base) && payload_len == MQTT_PAYLOAD_SIZE {
        Incoming::Measurement
    } else if String::from_str(topic) == String::from_str(topic_error) {
        Incoming::Message
    } else {
        Incoming::Invalid
    }
}

/// The 32-bit word of four bytes, most significant first.
pub open spec fn be_word(b0: u8, b1: u8, b2: u8, b3: u8) -> u32 {
    ((b0 as u32) << 24u32) | ((b1 as u32) << 16u32) | ((b2 as u32) << 8u32) | (b3 as u32)
}

/// The word of cell `i` of a payload.
pub open spec fn cell_word(raw: Seq<u8>, i: int) -> u32 {
    be_word(raw[4 * i], raw[4 * i + 1], raw[4 * i + 2], raw[4 * i + 3])
}

/// The four bytes of a word, most significant first (what `to_be_bytes` gives).
pub open spec fn word_bytes(x: u32) -> Seq<u8> {
    seq![(x >> 24u32) as u8, (x >> 16u32) as u8, (x >> 8u32) as u8, x as u8]
}

/// The payload that carries the given cell words.
pub open spec fn encode_cells(cells: Seq<u32>) -> Seq<u8>
    decreases cells.len(),
{
    if cells.len() == 0 {
        Seq::empty()
    } else {
        encode_cells(cells.drop_last()) + word_bytes(cells.last())
    }
}

proof fn lemma_encode_cells(cells: Seq<u32>)
    ensures
        encode_cells(cells).len() == 4 * cells.len(),
        forall|i: int, j: int|
            0 <= i < cells.len() && 0 <= j < 4 ==> #[trigger] encode_cells(cells)[4 * i + j]
                == word_bytes(cells[i])[j],
    decreases cells.len(),
{
    if cells.len() > 0 {
        let init = cells.drop_last();
        lemma_encode_cells(init);
        assert forall|i: int, j: int|
            0 <= i < cells.len() && 0 <= j < 4 implies #[trigger] encode_cells(cells)[4 * i + j]
                == word_bytes(cells[i])[j] by {
            if i < cells.len() - 1 {
                assert(encode_cells(init)[4 * i + j] == word_bytes(init[i])[j]);
            }
        }
    }
}

/// Reading a payload gives back the words it was made of: the framing of
/// cells is the inverse of writing each word big-endian, one after another.
pub proof fn law_payload_cells_decode_encoding(cells: Seq<u32>)
    requires
        cells.len() == POW,
    ensures
        encode_cells(cells).len() == MQTT_PAYLOAD_SIZE,
        forall|i: int| 0 <= i < POW ==> #[trigger] cell_word(encode_cells(cells), i) == cells[i],
{
    lemma_encode_cells(cells);
    assert forall|i: int| 0 <= i < POW implies #[trigger] cell_word(encode_cells(cells), i)
        == cells[i] by {
        let x = cells[i];
        let e = encode_cells(cells);
        assert(e[4 * i + 0] == word_bytes(x)[0]);
        assert(e[4 * i + 1] == word_bytes(x)[1]);
        assert(e[4 * i + 2] == word_bytes(x)[2]);
        assert(e[4 * i + 3] == word_bytes(x)[3]);
        assert(((((x >> 24u32) as u8) as u32) << 24u32) | ((((x >> 16u32) as u8) as u32) << 16u32)
            | ((((x >> 8u32) as u8) as u32) << 8u32) | ((x as u8) as u32) == x) by (bit_vector);
    }
}

/// The cells of a measurement payload: `POW` big-endian 32-bit words (the
/// bit patterns of the temperatures), or nothing when the payload does not
/// have exactly `MQTT_PAYLOAD_SIZE` bytes.
pub fn payload_cells(raw: &[u8]) -> (r: Option<Vec<u32>>)
    ensures
        r is Some <==> raw@.len() == MQTT_PAYLOAD_SIZE,
        r matches Some(cells) ==> cells@.len() == POW && forall|i: int|
            0 <= i < POW ==> #[trigger] cells@[i] == cell_word(raw@, i),
{
    if raw.len() != MQTT_PAYLOAD_SIZE {
        return None;
    }
    let mut cells: Vec<u32> = Vec::new();
    let mut i: usize = 0;
    while i < POW
        invariant
            raw@.len() == MQTT_PAYLOAD_SIZE,
            i <= POW,
            cells@.len() == i,
            forall|k: int| 0 <= k < i ==> #[trigger] cells@[k] == cell_word(raw@, k),
        decreases POW - i,
    {
        let at = CHUNK_SIZE * i;
        let w = ((raw[at] as u32) << 24u32) | ((raw[at + 1] as u32) << 16u32) | ((raw[at + 2]
            as u32) << 8u32) | (raw[at + 3] as u32);
        cells.push(w);
        i = i + 1;
    }
    Some(cells)
}

/// Creating a topic from a base and plain segments puts exactly one `/`
/// between consecutive pieces, when the base does not end in `/` and no
/// segment is empty, starts with `/` or ends in `/`.
pub proof fn law_create_topic_joins(base: Seq<char>, parts: Seq<Seq<char>>)
    requires
        base.len() > 0,
        base.last() != '/',
        parts.len() >= 1,
        forall|i: int|
            0 <= i < parts.len() ==> (#[trigger] parts[i]).len() > 0 && parts[i][0] != '/'
                && parts[i].last() != '/',
    ensures
        topic_path(base, parts) == base + "/"@ + join_seq(parts, "/"@),
    decreases parts.len(),
{
    reveal_strlit("/");
    let x = parts.last();
    let init = parts.drop_last();
    assert(parts[parts.len() - 1].len() > 0);
    assert(topic_path(base, parts) == path_push(topic_path(base, init), x));
    if parts.len() == 1 {
        assert(parts =~= seq![x]);
        assert(init =~= Seq::<Seq<char>>::empty());
    } else {
        law_create_topic_joins(base, init);
        crate::text::lemma_join_push(init, x, "/"@);
        assert(init.push(x) =~= parts);
        let j = join_seq(init, "/"@);
        assert(init[init.len() - 1].len() > 0);
        if init.len() == 1 {
            assert(j == init[0]);
        } else {
            crate::text::lemma_join_push(init.drop_last(), init.last(), "/"@);
            assert(init.drop_last().push(init.last()) =~= init);
        }
        assert(j.len() > 0 && j.last() == init.last().last());
        let p = base + "/"@ + j;
        assert(p.last() == j.last());
        assert(p + "/"@ + x =~= base + "/"@ + (j + "/"@ + x));
        assert(path_push(p, x) == p + "/"@ + x);
    }
}

/// Only a payload of exactly the measurement size can be a measurement,
/// whatever the topics.
pub proof fn law_measurement_has_exact_size(
    topic: Seq<char>,
    payload_len: int,
    topic_base: Seq<char>,
    topic_error: Seq<char>,
)
    ensures
        incoming_kind(topic, payload_len, topic_base, topic_error) == Incoming::Measurement
            ==> payload_len == MQTT_PAYLOAD_SIZE,
{
}

/// A publication on the error topic whose payload is not of the measurement
/// size is a message for the common log, of any length.
pub proof fn law_error_topic_text_is_message(
    payload_len: int,
    topic_base: Seq<char>,
    topic_error: Seq<char>,
)
    requires
        payload_len != MQTT_PAYLOAD_SIZE,
    ensures
        incoming_kind(topic_error, payload_len, topic_base, topic_error) == Incoming::Message,
{
}

} // verus!
