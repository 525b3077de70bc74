use vstd::prelude::*;
use serde_json::Value;
use crate::json::{
    as_text, as_whole, check_object, fields, get, is_object, parse, parsed, text_of, whole_of,
};
use crate::sessions::{first_index, lemma_first_index_is};
use crate::naming::{join_path, joined};
use crate::text::{
    contains_text, has_part, option_text, pieces, same_text, split, texts, trim, trimmed,
};

verus! {

/// The tokens of one day.
#[derive(Clone, Copy, Debug, PartialEq, Eq, Structural)]
pub struct DailyTotals {
    pub input: i64,
    pub cached: i64,
    pub output: i64,
}

/// The running totals of one session log.
#[derive(Clone, Copy, Debug, PartialEq, Eq, Structural)]
pub struct UsageTotals {
    pub input: i64,
    pub cached: i64,
    pub output: i64,
}

impl Default for DailyTotals {
    fn default() -> (r: Self)
        ensures
            r == (DailyTotals { input: 0, cached: 0, output: 0 }),
    {
        DailyTotals { input: 0, cached: 0, output: 0 }
    }
}

impl Default for UsageTotals {
    fn default() -> (r: Self)
        ensures
            r == (UsageTotals { input: 0, cached: 0, output: 0 }),
    {
        UsageTotals { input: 0, cached: 0, output: 0 }
    }
}

/// The tokens that were counted for one day.
#[derive(Debug)]
pub struct DayUsage {
    pub day: String,
    pub totals: DailyTotals,
}

/// The tokens that were counted for one model.
#[derive(Debug)]
pub struct ModelUsage {
    pub model: String,
    pub tokens: i64,
}

impl View for DayUsage {
    type V = (Seq<char>, DailyTotals);

    open spec fn view(&self) -> (Seq<char>, DailyTotals) {
        (self.day@, self.totals)
    }
}

impl View for ModelUsage {
    type V = (Seq<char>, i64);

    open spec fn view(&self) -> (Seq<char>, i64) {
        (self.model@, self.tokens)
    }
}

/// The values of a list of days.
pub open spec fn day_views(list: Seq<DayUsage>) -> Seq<(Seq<char>, DailyTotals)> {
    list.map_values(|d: DayUsage| d@)
}

/// The values of a list of models.
pub open spec fn model_views(list: Seq<ModelUsage>) -> Seq<(Seq<char>, i64)> {
    list.map_values(|m: ModelUsage| m@)
}

/// The keys of a list of pairs.
pub open spec fn keys_of<T>(list: Seq<(Seq<char>, T)>) -> Seq<Seq<char>> {
    list.map_values(|p: (Seq<char>, T)| p.0)
}

/// A number brought into the range of `i64`: numbers beyond an end become that end.
pub open spec fn clamp(n: int) -> i64 {
    if n > i64::MAX {
        i64::MAX
    } else if n < i64::MIN {
        i64::MIN
    } else {
        n as i64
    }
}

/// The sum of two numbers, kept within the range of `i64`.
pub fn plus(a: i64, b: i64) -> (r: i64)
    ensures
        r == clamp(a + b),
{
    match a.checked_add(b) {
        Some(r) => r,
        None => if a > 0 {
            i64::MAX
        } else {
            i64::MIN
        },
    }
}

/// What `a` has more than `b`, and zero where it has not more; kept
/// within the range of `i64`.
pub open spec fn surplus(a: i64, b: i64) -> i64 {
    if a - b <= 0 {
        0
    } else {
        clamp(a - b)
    }
}

/// What `a` has more than `b`, and zero where it has not more.
pub fn gain(a: i64, b: i64) -> (r: i64)
    ensures
        r == surplus(a, b),
{
    if a <= b {
        0
    } else if b >= 0 {
        a - b
    } else if a >= i64::MAX + b {
        i64::MAX
    } else {
        a - b
    }
}

/// One line of a session log, as far as the count of tokens reads it.
pub enum UsageRecord {
    /// A line that the count passes over.
    Nothing,
    /// A turn context that names the model of what follows.
    Model(String),
    /// A count of tokens: running totals where `from_total` holds, and
    /// else the tokens of one step; and the model that the line names, if any.
    Tokens { input: i64, cached: i64, output: i64, from_total: bool, model: Option<String> },
}

/// The value of a record.
pub enum RecordView {
    Nothing,
    Model(Seq<char>),
    Tokens { input: i64, cached: i64, output: i64, from_total: bool, model: Option<Seq<char>> },
}

impl View for UsageRecord {
    type V = RecordView;

    open spec fn view(&self) -> RecordView {
        match *self {
            UsageRecord::Nothing => RecordView::Nothing,
            UsageRecord::Model(m) => RecordView::Model(m@),
            UsageRecord::Tokens { input, cached, output, from_total, model } => RecordView::Tokens {
                input,
                cached,
                output,
                from_total,
                model: option_text(model),
            },
        }
    }
}

/// The member of a document under a key.
pub open spec fn at(value: Value, key: Seq<char>) -> Option<Value> {
    if fields(value).contains_key(key) {
        Some(fields(value)[key])
    } else {
        None
    }
}

/// The text of the member of a document under a key.
pub open spec fn text_at(value: Value, key: Seq<char>) -> Option<Seq<char>> {
    match at(value, key) {
        Some(member) => text_of(member),
        None => None,
    }
}

/// The texts of a list of keys.
pub open spec fn key_texts(keys: Seq<&'static str>) -> Seq<Seq<char>> {
    keys.map_values(|k: &'static str| k@)
}

/// The member under the first of the keys that the document has.
pub open spec fn first_member(value: Value, keys: Seq<Seq<char>>) -> Option<Value>
    decreases keys.len(),
{
    if keys.len() == 0 {
        None
    } else if fields(value).contains_key(keys[0]) {
        Some(fields(value)[keys[0]])
    } else {
        first_member(value, keys.drop_first())
    }
}

/// The member under the first of the keys under which the document has an object.
pub open spec fn first_object(value: Value, keys: Seq<Seq<char>>) -> Option<Value>
    decreases keys.len(),
{
    if keys.len() == 0 {
        None
    } else if fields(value).contains_key(keys[0]) && is_object(fields(value)[keys[0]]) {
        Some(fields(value)[keys[0]])
    } else {
        first_object(value, keys.drop_first())
    }
}

/// The number under the first of the keys that the document has, and zero
/// where it has none of them or has no number there.
pub open spec fn number_at(value: Value, keys: Seq<Seq<char>>) -> i64 {
    match first_member(value, keys) {
        Some(member) => match whole_of(member) {
            Some(n) => n,
            None => 0,
        },
        None => 0,
    }
}

/// The model that a turn context names: that of its payload, or else that
/// of the payload's `info`.
pub open spec fn context_model(value: Value) -> Option<Seq<char>> {
    match at(value, "payload"@) {
        None => None,
        Some(payload) => match text_at(payload, "model"@) {
            Some(model) => Some(model),
            None => match at(payload, "info"@) {
                Some(info) => text_at(info, "model"@),
                None => None,
            },
        },
    }
}

/// The model that a count of tokens names: `model` or else `model_name`
/// of its `info`, or else the model of its payload, or else its own.
pub open spec fn token_model(value: Value) -> Option<Seq<char>> {
    match at(value, "payload"@) {
        None => None,
        Some(payload) => if !is_object(payload) {
            None
        } else {
            let named = match at(payload, "info"@) {
                Some(info) => match first_member(info, seq!["model"@, "model_name"@]) {
                    Some(member) => text_of(member),
                    None => None,
                },
                None => None,
            };
            match named {
                Some(model) => Some(model),
                None => match text_at(payload, "model"@) {
                    Some(model) => Some(model),
                    None => text_at(value, "model"@),
                },
            }
        },
    }
}

/// The keys under which the input tokens stand.
pub open spec fn input_keys() -> Seq<Seq<char>> {
    seq!["input_tokens"@, "inputTokens"@]
}

/// The keys under which the cached input tokens stand.
pub open spec fn cached_keys() -> Seq<Seq<char>> {
    seq![
        "cached_input_tokens"@,
        "cache_read_input_tokens"@,
        "cachedInputTokens"@,
        "cacheReadInputTokens"@,
    ]
}

/// The keys under which the output tokens stand.
pub open spec fn output_keys() -> Seq<Seq<char>> {
    seq!["output_tokens"@, "outputTokens"@]
}

/// What a parsed line is to the count, where it holds a count of tokens.
pub open spec fn tokens_of(value: Value) -> RecordView {
    match at(value, "payload"@) {
        None => RecordView::Nothing,
        Some(payload) => if text_at(payload, "type"@) != Some("token_count"@) {
            RecordView::Nothing
        } else {
            match at(payload, "info"@) {
                None => RecordView::Nothing,
                Some(info) => if !is_object(info) {
                    RecordView::Nothing
                } else {
                    match first_object(info, seq!["total_token_usage"@, "totalTokenUsage"@]) {
                        Some(total) => RecordView::Tokens {
                            input: number_at(total, input_keys()),
                            cached: number_at(total, cached_keys()),
                            output: number_at(total, output_keys()),
                            from_total: true,
                            model: token_model(value),
                        },
                        None => match first_object(
                            info,
                            seq!["last_token_usage"@, "lastTokenUsage"@],
                        ) {
                            Some(last) => RecordView::Tokens {
                                input: number_at(last, input_keys()),
                                cached: number_at(last, cached_keys()),
                                output: number_at(last, output_keys()),
                                from_total: false,
                                model: token_model(value),
                            },
                            None => RecordView::Nothing,
                        },
                    }
                },
            }
        },
    }
}

/// The length of a text in bytes, as UTF-8 and as a `usize` holds it.
pub open spec fn byte_len(line: Seq<char>) -> usize {
    vstd::utf8::encode_utf8(line).len() as usize
}

/// The longest line that is read, in bytes.
pub const MAX_LINE_BYTES: usize = 512000;

/// What a line of a session log is to the count. A line of more than
/// 512000 bytes is passed over; a line that mentions a turn context gives
/// the model, if it names one; a line that mentions a count of tokens
/// gives the count, if it holds one; every other line is passed over.
pub open spec fn record_of(line: Seq<char>) -> RecordView {
    if byte_len(line) > MAX_LINE_BYTES {
        RecordView::Nothing
    } else if has_part(line, "\"type\":\"turn_context\""@) {
        match parsed(line) {
            Ok(value) => match context_model(value) {
                Some(model) => RecordView::Model(model),
                None => RecordView::Nothing,
            },
            Err(_) => RecordView::Nothing,
        }
    } else if !has_part(line, "\"token_count\""@) {
        RecordView::Nothing
    } else {
        match parsed(line) {
            Ok(value) => tokens_of(value),
            Err(_) => RecordView::Nothing,
        }
    }
}

/// The text of the member of a document under a key.
fn read_text(value: &Value, key: &str) -> (r: Option<String>)
    ensures
        option_text(r) == text_at(*value, key@),
{
    match get(value, key) {
        Some(member) => as_text(member),
        None => None,
    }
}

/// The member under the first of the keys that the document has.
fn find_member<'a>(value: &'a Value, keys: &Vec<&'static str>) -> (r: Option<&'a Value>)
    ensures
        match r {
            Some(member) => first_member(*value, key_texts(keys@)) == Some(*member),
            None => first_member(*value, key_texts(keys@)) is None,
        },
{
    let mut i: usize = 0;
    proof {
        assert(key_texts(keys@).skip(0) =~= key_texts(keys@));
    }
    while i < keys.len()
        invariant
            i <= keys.len(),
            first_member(*value, key_texts(keys@)) == first_member(
                *value,
                key_texts(keys@).skip(i as int),
            ),
        decreases keys.len() - i,
    {
        proof {
            assert(key_texts(keys@).skip(i as int)[0] == keys@[i as int]@);
            assert(key_texts(keys@).skip(i as int).drop_first() =~= key_texts(keys@).skip(i + 1));
        }
        match get(value, keys[i]) {
            Some(member) => {
                return Some(member);
            },
            None => {},
        }
        i += 1;
    }
    None
}

/// The member under the first of the keys under which the document has an object.
pub fn find_usage_map<'a>(info: &'a Value, keys: &Vec<&'static str>) -> (r: Option<&'a Value>)
    ensures
        match r {
            Some(member) => first_object(*info, key_texts(keys@)) == Some(*member),
            None => first_object(*info, key_texts(keys@)) is None,
        },
{
    let mut i: usize = 0;
    proof {
        assert(key_texts(keys@).skip(0) =~= key_texts(keys@));
    }
    while i < keys.len()
        invariant
            i <= keys.len(),
            first_object(*info, key_texts(keys@)) == first_object(
                *info,
                key_texts(keys@).skip(i as int),
            ),
        decreases keys.len() - i,
    {
        proof {
            assert(key_texts(keys@).skip(i as int)[0] == keys@[i as int]@);
            assert(key_texts(keys@).skip(i as int).drop_first() =~= key_texts(keys@).skip(i + 1));
        }
        match get(info, keys[i]) {
            Some(member) => {
                if check_object(member) {
                    return Some(member);
                }
            },
            None => {},
        }
        i += 1;
    }
    None
}

/// The number under the first of the keys that the document has, and zero
/// where it has none of them or has no number there.
pub fn read_i64(map: &Value, keys: &Vec<&'static str>) -> (r: i64)
    ensures
        r == number_at(*map, key_texts(keys@)),
{
    match find_member(map, keys) {
        Some(member) => match as_whole(member) {
            Some(n) => n,
            None => 0,
        },
        None => 0,
    }
}

/// The model that a turn context names.
pub fn extract_model_from_turn_context(value: &Value) -> (r: Option<String>)
    ensures
        option_text(r) == context_model(*value),
{
    match get(value, "payload") {
        None => None,
        Some(payload) => match read_text(payload, "model") {
            Some(model) => Some(model),
            None => match get(payload, "info") {
                Some(info) => read_text(info, "model"),
                None => None,
            },
        },
    }
}

/// The model that a count of tokens names.
pub fn extract_model_from_token_count(value: &Value) -> (r: Option<String>)
    ensures
        option_text(r) == token_model(*value),
{
    match get(value, "payload") {
        None => None,
        Some(payload) => {
            if !check_object(payload) {
                return None;
            }
            let named = match get(payload, "info") {
                Some(info) => {
                    let keys = vec!["model", "model_name"];
                    proof {
                        assert(key_texts(keys@) =~= seq!["model"@, "model_name"@]);
                    }
                    match find_member(info, &keys) {
                        Some(member) => as_text(member),
                        None => None,
                    }
                },
                None => None,
            };
            match named {
                Some(model) => Some(model),
                None => match read_text(payload, "model") {
                    Some(model) => Some(model),
                    None => read_text(value, "model"),
                },
            }
        },
    }
}

/// The three counts of a usage map, with the given origin and model.
fn read_counts(map: &Value, from_total: bool, model: Option<String>) -> (r: UsageRecord)
    ensures
        r@ == (RecordView::Tokens {
            input: number_at(*map, input_keys()),
            cached: number_at(*map, cached_keys()),
            output: number_at(*map, output_keys()),
            from_total,
            model: option_text(model),
        }),
{
    let input_keys = vec!["input_tokens", "inputTokens"];
    let cached_keys = vec![
        "cached_input_tokens",
        "cache_read_input_tokens",
        "cachedInputTokens",
        "cacheReadInputTokens",
    ];
    let output_keys = vec!["output_tokens", "outputTokens"];
    proof {
        assert(key_texts(input_keys@) =~= self::input_keys());
        assert(key_texts(cached_keys@) =~= self::cached_keys());
        assert(key_texts(output_keys@) =~= self::output_keys());
    }
    UsageRecord::Tokens {
        input: read_i64(map, &input_keys),
        cached: read_i64(map, &cached_keys),
        output: read_i64(map, &output_keys),
        from_total,
        model,
    }
}

/// What a parsed line is to the count, where it holds a count of tokens.
pub fn read_tokens(value: &Value) -> (r: UsageRecord)
    ensures
        r@ == tokens_of(*value),
{
    let payload = match get(value, "payload") {
        Some(payload) => payload,
        None => {
            return UsageRecord::Nothing;
        },
    };
    match read_text(payload, "type") {
        Some(kind) => {
            if !same_text(kind.as_str(), "token_count") {
                return UsageRecord::Nothing;
            }
        },
        None => {
            return UsageRecord::Nothing;
        },
    }
    let info = match get(payload, "info") {
        Some(info) => info,
        None => {
            return UsageRecord::Nothing;
        },
    };
    if !check_object(info) {
        return UsageRecord::Nothing;
    }
    let total_keys = vec!["total_token_usage", "totalTokenUsage"];
    let last_keys = vec!["last_token_usage", "lastTokenUsage"];
    proof {
        assert(key_texts(total_keys@) =~= seq!["total_token_usage"@, "totalTokenUsage"@]);
        assert(key_texts(last_keys@) =~= seq!["last_token_usage"@, "lastTokenUsage"@]);
    }
    match find_usage_map(info, &total_keys) {
        Some(total) => read_counts(total, true, extract_model_from_token_count(value)),
        None => match find_usage_map(info, &last_keys) {
            Some(last) => read_counts(last, false, extract_model_from_token_count(value)),
            None => UsageRecord::Nothing,
        },
    }
}

/// What a line of a session log is to the count.
pub fn read_record(line: &str) -> (r: UsageRecord)
    ensures
        r@ == record_of(line@),
{
    if line.len() > MAX_LINE_BYTES {
        return UsageRecord::Nothing;
    }
    if contains_text(line, "\"type\":\"turn_context\"") {
        return match parse(line) {
            Ok(value) => match extract_model_from_turn_context(&value) {
                Some(model) => UsageRecord::Model(model),
                None => UsageRecord::Nothing,
            },
            Err(_) => UsageRecord::Nothing,
        };
    }
    if !contains_text(line, "\"token_count\"") {
        return UsageRecord::Nothing;
    }
    match parse(line) {
        Ok(value) => read_tokens(&value),
        Err(_) => UsageRecord::Nothing,
    }
}

/// What a scan of one session log remembers from line to line: the totals
/// that the log has reached, and the model that the last turn context named.
pub struct ScanState {
    pub previous: Option<UsageTotals>,
    pub model: Option<String>,
}

/// The value of what a scan remembers.
pub struct ScanView {
    pub previous: Option<UsageTotals>,
    pub model: Option<Seq<char>>,
}

impl View for ScanState {
    type V = ScanView;

    open spec fn view(&self) -> ScanView {
        ScanView { previous: self.previous, model: option_text(self.model) }
    }
}

/// The totals that a log has reached: none yet counts as zero.
pub open spec fn reached(previous: Option<UsageTotals>) -> UsageTotals {
    match previous {
        Some(totals) => totals,
        None => UsageTotals { input: 0, cached: 0, output: 0 },
    }
}

/// The tokens that a count adds: for running totals what they have more
/// than the totals that were reached, and for a step the step itself.
pub open spec fn delta_of(previous: Option<UsageTotals>, count: UsageTotals, from_total: bool) -> UsageTotals {
    if from_total {
        UsageTotals {
            input: surplus(count.input, reached(previous).input),
            cached: surplus(count.cached, reached(previous).cached),
            output: surplus(count.output, reached(previous).output),
        }
    } else {
        count
    }
}

/// The totals that are reached after a count: running totals stand for
/// themselves, a step is added to what was reached, so that the next
/// running totals do not count it again.
pub open spec fn reached_after(previous: Option<UsageTotals>, count: UsageTotals, from_total: bool) -> UsageTotals {
    if from_total {
        count
    } else {
        UsageTotals {
            input: clamp(reached(previous).input + count.input),
            cached: clamp(reached(previous).cached + count.cached),
            output: clamp(reached(previous).output + count.output),
        }
    }
}

/// Tokens that a log reports as a step and then again within its running
/// totals are counted once: the step and the totals after it add together
/// what the totals have grown by, not more.
pub proof fn law_steps_counted_once(
    previous: Option<UsageTotals>,
    step: UsageTotals,
    total: UsageTotals,
)
    requires
        reached(previous).input >= 0 && reached(previous).cached >= 0 && reached(previous).output
            >= 0,
        step.input >= 0 && step.cached >= 0 && step.output >= 0,
        reached(previous).input + step.input <= total.input,
        reached(previous).cached + step.cached <= total.cached,
        reached(previous).output + step.output <= total.output,
    ensures
        delta_of(previous, step, false).input + delta_of(
            Some(reached_after(previous, step, false)),
            total,
            true,
        ).input == total.input - reached(previous).input,
        delta_of(previous, step, false).cached + delta_of(
            Some(reached_after(previous, step, false)),
            total,
            true,
        ).cached == total.cached - reached(previous).cached,
        delta_of(previous, step, false).output + delta_of(
            Some(reached_after(previous, step, false)),
            total,
            true,
        ).output == total.output - reached(previous).output,
{
}

/// The tokens of a day after `delta` is added; of the cached tokens no
/// more count than there are input tokens.
pub open spec fn day_sum(totals: DailyTotals, delta: UsageTotals) -> DailyTotals {
    DailyTotals {
        input: clamp(totals.input + delta.input),
        cached: clamp(
            totals.cached + if delta.cached <= delta.input {
                delta.cached
            } else {
                delta.input
            },
        ),
        output: clamp(totals.output + delta.output),
    }
}

/// The days with `delta` added to the day `day`, which is put at the end
/// where the list has no such day.
pub open spec fn with_day(
    daily: Seq<(Seq<char>, DailyTotals)>,
    day: Seq<char>,
    delta: UsageTotals,
) -> Seq<(Seq<char>, DailyTotals)> {
    let i = first_index(keys_of(daily), day);
    if i < daily.len() {
        daily.update(i, (day, day_sum(daily[i].1, delta)))
    } else {
        daily.push((day, day_sum(DailyTotals { input: 0, cached: 0, output: 0 }, delta)))
    }
}

/// The models with `tokens` added to the model `model`, which is put at
/// the end where the list has no such model.
pub open spec fn with_model(models: Seq<(Seq<char>, i64)>, model: Seq<char>, tokens: i64) -> Seq<
    (Seq<char>, i64),
> {
    let i = first_index(keys_of(models), model);
    if i < models.len() {
        models.update(i, (model, clamp(models[i].1 + tokens)))
    } else {
        models.push((model, tokens))
    }
}

/// The model that tokens are counted for: the one of the last turn
/// context, or else the one that the line names, or else `unknown`.
pub open spec fn credited(current: Option<Seq<char>>, named: Option<Seq<char>>) -> Seq<char> {
    match current {
        Some(model) => model,
        None => match named {
            Some(model) => model,
            None => "unknown"@,
        },
    }
}

/// What a scan remembers, the days and the models after one record.
pub open spec fn applied(
    state: ScanView,
    record: RecordView,
    day: Seq<char>,
    daily: Seq<(Seq<char>, DailyTotals)>,
    models: Seq<(Seq<char>, i64)>,
) -> (ScanView, Seq<(Seq<char>, DailyTotals)>, Seq<(Seq<char>, i64)>) {
    match record {
        RecordView::Nothing => (state, daily, models),
        RecordView::Model(model) => (ScanView { model: Some(model), ..state }, daily, models),
        RecordView::Tokens { input, cached, output, from_total, model } => {
            let count = UsageTotals { input, cached, output };
            let delta = delta_of(state.previous, count, from_total);
            let next = ScanView {
                previous: Some(reached_after(state.previous, count, from_total)),
                ..state
            };
            if delta.input == 0 && delta.cached == 0 && delta.output == 0 {
                (next, daily, models)
            } else {
                (
                    next,
                    with_day(daily, day, delta),
                    with_model(
                        models,
                        credited(state.model, model),
                        clamp(delta.input + delta.output),
                    ),
                )
            }
        },
    }
}

/// What a scan remembers, the days and the models after the lines of one
/// log, read from the state of a new scan.
pub open spec fn scanned(
    lines: Seq<Seq<char>>,
    day: Seq<char>,
    daily: Seq<(Seq<char>, DailyTotals)>,
    models: Seq<(Seq<char>, i64)>,
) -> (ScanView, Seq<(Seq<char>, DailyTotals)>, Seq<(Seq<char>, i64)>)
    decreases lines.len(),
{
    if lines.len() == 0 {
        (ScanView { previous: None, model: None }, daily, models)
    } else {
        let before = scanned(lines.drop_last(), day, daily, models);
        applied(before.0, record_of(lines.last()), day, before.1, before.2)
    }
}

/// The index of the day `day` in a list of days, and the length where it has none.
fn find_day(daily: &Vec<DayUsage>, day: &str) -> (i: usize)
    ensures
        i == first_index(keys_of(day_views(daily@)), day@),
        i <= daily.len(),
{
    let ghost keys = keys_of(day_views(daily@));
    let mut i: usize = 0;
    while i < daily.len()
        invariant
            i <= daily.len(),
            keys == keys_of(day_views(daily@)),
            forall|k: int| 0 <= k < i ==> keys[k] != day@,
        decreases daily.len() - i,
    {
        assert(keys[i as int] == daily@[i as int].day@);
        if same_text(daily[i].day.as_str(), day) {
            proof {
                lemma_first_index_is(keys, day@, i as int);
            }
            return i;
        }
        i += 1;
    }
    proof {
        lemma_first_index_is(keys, day@, i as int);
    }
    i
}

/// The index of the model `model` in a list of models, and the length where it has none.
fn find_model(models: &Vec<ModelUsage>, model: &str) -> (i: usize)
    ensures
        i == first_index(keys_of(model_views(models@)), model@),
        i <= models.len(),
{
    let ghost keys = keys_of(model_views(models@));
    let mut i: usize = 0;
    while i < models.len()
        invariant
            i <= models.len(),
            keys == keys_of(model_views(models@)),
            forall|k: int| 0 <= k < i ==> keys[k] != model@,
        decreases models.len() - i,
    {
        assert(keys[i as int] == models@[i as int].model@);
        if same_text(models[i].model.as_str(), model) {
            proof {
                lemma_first_index_is(keys, model@, i as int);
            }
            return i;
        }
        i += 1;
    }
    proof {
        lemma_first_index_is(keys, model@, i as int);
    }
    i
}

/// The smaller of two numbers.
fn least(a: i64, b: i64) -> (r: i64)
    ensures
        r == if a <= b {
            a
        } else {
            b
        },
{
    if a <= b {
        a
    } else {
        b
    }
}

/// Adds the tokens of `delta` to the day `day`.
pub fn add_to_day(daily: &mut Vec<DayUsage>, day: &str, delta: UsageTotals)
    ensures
        day_views(final(daily)@) == with_day(day_views(old(daily)@), day@, delta),
{
    let i = find_day(daily, day);
    let ghost before = day_views(daily@);
    if i < daily.len() {
        let was = daily[i].totals;
        let now = DailyTotals {
            input: plus(was.input, delta.input),
            cached: plus(was.cached, least(delta.cached, delta.input)),
            output: plus(was.output, delta.output),
        };
        daily[i] = DayUsage { day: day.to_owned(), totals: now };
        assert(day_views(daily@) =~= before.update(i as int, (day@, now)));
    } else {
        let now = DailyTotals {
            input: plus(0, delta.input),
            cached: plus(0, least(delta.cached, delta.input)),
            output: plus(0, delta.output),
        };
        daily.push(DayUsage { day: day.to_owned(), totals: now });
        assert(day_views(daily@) =~= before.push((day@, now)));
    }
}

/// Adds `tokens` to the model `model`.
pub fn add_to_model(models: &mut Vec<ModelUsage>, model: String, tokens: i64)
    ensures
        model_views(final(models)@) == with_model(model_views(old(models)@), model@, tokens),
{
    let i = find_model(models, model.as_str());
    let ghost before = model_views(models@);
    if i < models.len() {
        let now = plus(models[i].tokens, tokens);
        models[i] = ModelUsage { model, tokens: now };
        assert(model_views(models@) =~= before.update(i as int, (model@, now)));
    } else {
        models.push(ModelUsage { model, tokens });
        assert(model_views(models@) =~= before.push((model@, tokens)));
    }
}

/// Takes one record into the count of the day `day`.
pub fn apply_record(
    state: &mut ScanState,
    record: UsageRecord,
    day: &str,
    daily: &mut Vec<DayUsage>,
    models: &mut Vec<ModelUsage>,
)
    ensures
        (final(state)@, day_views(final(daily)@), model_views(final(models)@)) == applied(
            old(state)@,
            record@,
            day@,
            day_views(old(daily)@),
            model_views(old(models)@),
        ),
{
    match record {
        UsageRecord::Nothing => {},
        UsageRecord::Model(model) => {
            state.model = Some(model);
        },
        UsageRecord::Tokens { input, cached, output, from_total, model } => {
            let was = match state.previous {
                Some(totals) => totals,
                None => UsageTotals { input: 0, cached: 0, output: 0 },
            };
            let delta = if from_total {
                state.previous = Some(UsageTotals { input, cached, output });
                UsageTotals {
                    input: gain(input, was.input),
                    cached: gain(cached, was.cached),
                    output: gain(output, was.output),
                }
            } else {
                state.previous = Some(
                    UsageTotals {
                        input: plus(was.input, input),
                        cached: plus(was.cached, cached),
                        output: plus(was.output, output),
                    },
                );
                UsageTotals { input, cached, output }
            };
            if delta.input == 0 && delta.cached == 0 && delta.output == 0 {
                return ;
            }
            add_to_day(daily, day, delta);
            let name = match &state.model {
                Some(current) => current.clone(),
                None => match model {
                    Some(named) => named,
                    None => "unknown".to_owned(),
                },
            };
            add_to_model(models, name, plus(delta.input, delta.output));
        },
    }
}

/// Counts the tokens of the lines of one session log for the day `day`,
/// so that tokens which a log reports as a step and again within its
/// running totals are counted once.
pub fn scan_lines(
    lines: &Vec<String>,
    day: &str,
    daily: &mut Vec<DayUsage>,
    models: &mut Vec<ModelUsage>,
)
    ensures
        (day_views(final(daily)@), model_views(final(models)@)) == (
            scanned(texts(lines@), day@, day_views(old(daily)@), model_views(old(models)@)).1,
            scanned(texts(lines@), day@, day_views(old(daily)@), model_views(old(models)@)).2,
        ),
{
    let mut state = ScanState { previous: None, model: None };
    let mut i: usize = 0;
    proof {
        assert(texts(lines@).take(0) =~= Seq::<Seq<char>>::empty());
    }
    while i < lines.len()
        invariant
            i <= lines.len(),
            (state@, day_views(daily@), model_views(models@)) == scanned(
                texts(lines@).take(i as int),
                day@,
                day_views(old(daily)@),
                model_views(old(models)@),
            ),
        decreases lines.len() - i,
    {
        proof {
            assert(texts(lines@).take(i + 1).drop_last() =~= texts(lines@).take(i as int));
            assert(texts(lines@).take(i + 1).last() == lines@[i as int]@);
        }
        let record = read_record(lines[i].as_str());
        apply_record(&mut state, record, day, daily, models);
        i += 1;
    }
    proof {
        assert(texts(lines@).take(lines@.len() as int) =~= texts(lines@));
    }
}

/// One day of a usage report.
#[derive(Debug)]
pub struct LocalUsageDay {
    pub day: String,
    pub input_tokens: i64,
    pub cached_input_tokens: i64,
    pub output_tokens: i64,
    pub total_tokens: i64,
}

/// The value of one day of a usage report.
pub struct DayRow {
    pub day: Seq<char>,
    pub input: i64,
    pub cached: i64,
    pub output: i64,
    pub total: i64,
}

impl View for LocalUsageDay {
    type V = DayRow;

    open spec fn view(&self) -> DayRow {
        DayRow {
            day: self.day@,
            input: self.input_tokens,
            cached: self.cached_input_tokens,
            output: self.output_tokens,
            total: self.total_tokens,
        }
    }
}

/// The sums of a usage report. The last seven days are the last seven of
/// the report's days, or all of them where it has fewer.
#[derive(Debug)]
pub struct LocalUsageTotals {
    pub last7_days_tokens: i64,
    pub last30_days_tokens: i64,
    pub last7_input_tokens: i64,
    pub last7_cached_input_tokens: i64,
    pub last7_day_count: usize,
    pub peak_day: Option<String>,
    pub peak_day_tokens: i64,
}

/// A usage report: its days in order, its sums, and the models that used
/// the most tokens.
#[derive(Debug)]
pub struct LocalUsageSnapshot {
    pub updated_at: i64,
    pub days: Vec<LocalUsageDay>,
    pub totals: LocalUsageTotals,
    pub top_models: Vec<ModelUsage>,
}

/// The values of the days of a report.
pub open spec fn row_views(list: Seq<LocalUsageDay>) -> Seq<DayRow> {
    list.map_values(|d: LocalUsageDay| d@)
}

/// The tokens that were counted for a day: those of the first entry for
/// it, and none where there is no entry.
pub open spec fn totals_for(daily: Seq<(Seq<char>, DailyTotals)>, day: Seq<char>) -> DailyTotals {
    let i = first_index(keys_of(daily), day);
    if i < daily.len() {
        daily[i].1
    } else {
        DailyTotals { input: 0, cached: 0, output: 0 }
    }
}

/// The row of a day: its tokens, and input and output together as its total.
pub open spec fn row_of(daily: Seq<(Seq<char>, DailyTotals)>, day: Seq<char>) -> DayRow {
    let t = totals_for(daily, day);
    DayRow { day, input: t.input, cached: t.cached, output: t.output, total: clamp(t.input + t.output) }
}

/// The rows of the days of a report.
pub open spec fn rows_of(day_keys: Seq<Seq<char>>, daily: Seq<(Seq<char>, DailyTotals)>) -> Seq<
    DayRow,
> {
    day_keys.map_values(|day: Seq<char>| row_of(daily, day))
}

/// The totals of some rows together.
pub open spec fn total_of(rows: Seq<DayRow>) -> i64
    decreases rows.len(),
{
    if rows.len() == 0 {
        0
    } else {
        clamp(total_of(rows.drop_last()) + rows.last().total)
    }
}

/// The input tokens of some rows together.
pub open spec fn input_of(rows: Seq<DayRow>) -> i64
    decreases rows.len(),
{
    if rows.len() == 0 {
        0
    } else {
        clamp(input_of(rows.drop_last()) + rows.last().input)
    }
}

/// The cached input tokens of some rows together.
pub open spec fn cached_of(rows: Seq<DayRow>) -> i64
    decreases rows.len(),
{
    if rows.len() == 0 {
        0
    } else {
        clamp(cached_of(rows.drop_last()) + rows.last().cached)
    }
}

/// The last seven rows, or all of them where there are fewer.
pub open spec fn last_seven(rows: Seq<DayRow>) -> Seq<DayRow> {
    if rows.len() <= 7 {
        rows
    } else {
        rows.skip(rows.len() - 7)
    }
}

/// The index of the last of the rows with the largest total; -1 for no rows.
pub open spec fn peak_index(rows: Seq<DayRow>) -> int
    decreases rows.len(),
{
    if rows.len() == 0 {
        -1
    } else {
        let before = peak_index(rows.drop_last());
        if before < 0 || rows.last().total >= rows[before].total {
            rows.len() - 1
        } else {
            before
        }
    }
}

/// The peak index is an index of the rows, where there are rows.
pub proof fn lemma_peak_index(rows: Seq<DayRow>)
    ensures
        -1 <= peak_index(rows) < rows.len(),
        rows.len() > 0 ==> peak_index(rows) >= 0,
        forall|i: int|
            0 <= i < rows.len() ==> (#[trigger] rows[i]).total <= rows[peak_index(rows)].total,
    decreases rows.len(),
{
    if rows.len() > 0 {
        let head = rows.drop_last();
        lemma_peak_index(head);
        assert forall|i: int| 0 <= i < rows.len() implies (#[trigger] rows[i]).total
            <= rows[peak_index(rows)].total by {
            if i < head.len() {
                assert(head[i] == rows[i]);
            }
        }
    }
}

/// The day with the most tokens, if any day has tokens: of several such days the last.
pub open spec fn peak_of(rows: Seq<DayRow>) -> (Option<Seq<char>>, i64) {
    let p = peak_index(rows);
    if p >= 0 && rows[p].total > 0 {
        (Some(rows[p].day), rows[p].total)
    } else {
        (None, 0)
    }
}

/// The models that are ranked: those with a name other than `unknown` and with tokens.
pub open spec fn ranks() -> spec_fn((Seq<char>, i64)) -> bool {
    |m: (Seq<char>, i64)| m.0 != "unknown"@ && m.1 > 0
}

/// Where a model with `tokens` goes into a ranking: behind every model
/// with as many tokens or more.
pub open spec fn rank_slot(list: Seq<(Seq<char>, i64)>, tokens: i64) -> int
    decreases list.len(),
{
    if list.len() == 0 {
        0
    } else if list[0].1 >= tokens {
        1 + rank_slot(list.drop_first(), tokens)
    } else {
        0
    }
}

/// The models from the most tokens to the fewest, those with equally many
/// in the order in which the list has them.
pub open spec fn ranked(list: Seq<(Seq<char>, i64)>) -> Seq<(Seq<char>, i64)>
    decreases list.len(),
{
    if list.len() == 0 {
        list
    } else {
        let before = ranked(list.drop_last());
        before.insert(rank_slot(before, list.last().1), list.last())
    }
}

/// The first four of a ranking, or all of it where it is shorter.
pub open spec fn top_four(list: Seq<(Seq<char>, i64)>) -> Seq<(Seq<char>, i64)> {
    if list.len() <= 4 {
        list
    } else {
        list.take(4)
    }
}

/// The models of a report: the first four of the ranking of the models that are ranked.
pub open spec fn top_models_of(models: Seq<(Seq<char>, i64)>) -> Seq<(Seq<char>, i64)> {
    top_four(ranked(models.filter(ranks())))
}

/// Whether a ranking goes from the most tokens to the fewest.
pub open spec fn descending(list: Seq<(Seq<char>, i64)>) -> bool {
    forall|i: int, j: int| 0 <= i < j < list.len() ==> (#[trigger] list[i]).1 >= (#[trigger] list[j]).1
}

/// The slot is within the list; what stands before it has as many tokens
/// or more, and what stands at it has fewer.
pub proof fn lemma_rank_slot(list: Seq<(Seq<char>, i64)>, tokens: i64)
    ensures
        0 <= rank_slot(list, tokens) <= list.len(),
        forall|k: int| 0 <= k < rank_slot(list, tokens) ==> (#[trigger] list[k]).1 >= tokens,
        rank_slot(list, tokens) < list.len() ==> list[rank_slot(list, tokens)].1 < tokens,
    decreases list.len(),
{
    if list.len() > 0 && list[0].1 >= tokens {
        let rest = list.drop_first();
        lemma_rank_slot(rest, tokens);
        assert forall|k: int| 0 <= k < rank_slot(list, tokens) implies (#[trigger] list[k]).1
            >= tokens by {
            if k > 0 {
                assert(list[k] == rest[k - 1]);
            }
        }
    }
}

/// An index is the slot when everything before it has as many tokens or
/// more and what stands at it has fewer.
pub proof fn lemma_rank_slot_is(list: Seq<(Seq<char>, i64)>, tokens: i64, k: int)
    requires
        0 <= k <= list.len(),
        forall|i: int| 0 <= i < k ==> (#[trigger] list[i]).1 >= tokens,
        k < list.len() ==> list[k].1 < tokens,
    ensures
        rank_slot(list, tokens) == k,
    decreases list.len(),
{
    if list.len() > 0 && k > 0 {
        assert(list[0].1 >= tokens);
        let rest = list.drop_first();
        assert forall|i: int| 0 <= i < k - 1 implies (#[trigger] rest[i]).1 >= tokens by {
            assert(rest[i] == list[i + 1]);
        }
        lemma_rank_slot_is(rest, tokens, k - 1);
    }
}

/// A ranking goes from the most tokens to the fewest, and it holds what
/// the list holds, each model as often as the list has it.
pub proof fn law_ranking_descends(list: Seq<(Seq<char>, i64)>)
    ensures
        descending(ranked(list)),
        ranked(list).len() == list.len(),
        ranked(list).to_multiset() == list.to_multiset(),
    decreases list.len(),
{
    if list.len() > 0 {
        let head = list.drop_last();
        law_ranking_descends(head);
        let before = ranked(head);
        let tokens = list.last().1;
        let k = rank_slot(before, tokens);
        lemma_rank_slot(before, tokens);
        let r = before.insert(k, list.last());
        assert forall|i: int, j: int| 0 <= i < j < r.len() implies (#[trigger] r[i]).1 >= (
        #[trigger] r[j]).1 by {
            if j < k {
                assert(r[i] == before[i] && r[j] == before[j]);
            } else if j == k {
                assert(r[i] == before[i]);
            } else if i == k {
                assert(r[j] == before[j - 1]);
                if j - 1 > k {
                    assert(before[k].1 >= before[j - 1].1);
                }
            } else if i < k {
                assert(r[i] == before[i] && r[j] == before[j - 1]);
            } else {
                assert(r[i] == before[i - 1] && r[j] == before[j - 1]);
            }
        }
        vstd::seq_lib::to_multiset_insert(before, k, list.last());
        assert(head.push(list.last()) =~= list);
        vstd::seq_lib::to_multiset_build(head, list.last());
    }
}

/// The tokens that were counted for a day.
pub fn day_totals(daily: &Vec<DayUsage>, day: &str) -> (r: DailyTotals)
    ensures
        r == totals_for(day_views(daily@), day@),
{
    let i = find_day(daily, day);
    if i < daily.len() {
        daily[i].totals
    } else {
        DailyTotals { input: 0, cached: 0, output: 0 }
    }
}

/// Puts a model into a ranking.
fn rank(ranking: &mut Vec<ModelUsage>, model: ModelUsage)
    ensures
        model_views(final(ranking)@) == model_views(old(ranking)@).insert(
            rank_slot(model_views(old(ranking)@), model.tokens),
            model@,
        ),
{
    let ghost before = model_views(ranking@);
    let mut k: usize = 0;
    while k < ranking.len() && ranking[k].tokens >= model.tokens
        invariant
            k <= ranking.len(),
            model_views(ranking@) == before,
            forall|i: int| 0 <= i < k ==> (#[trigger] before[i]).1 >= model.tokens,
        decreases ranking.len() - k,
    {
        assert(before[k as int] == ranking@[k as int]@);
        k += 1;
    }
    proof {
        if k < ranking.len() {
            assert(before[k as int] == ranking@[k as int]@);
        }
        lemma_rank_slot_is(before, model.tokens, k as int);
    }
    ranking.insert(k, model);
    assert(model_views(ranking@) =~= before.insert(k as int, model@));
}

/// The models of a report.
pub fn top_models(models: &Vec<ModelUsage>) -> (top: Vec<ModelUsage>)
    ensures
        model_views(top@) == top_models_of(model_views(models@)),
{
    let ghost all = model_views(models@);
    let mut ranking: Vec<ModelUsage> = Vec::new();
    let mut i: usize = 0;
    proof {
        reveal(Seq::filter);
        assert(all.take(0) =~= Seq::<(Seq<char>, i64)>::empty());
        assert(model_views(ranking@) =~= Seq::<(Seq<char>, i64)>::empty());
    }
    while i < models.len()
        invariant
            i <= models.len(),
            all == model_views(models@),
            model_views(ranking@) == ranked(all.take(i as int).filter(ranks())),
        decreases models.len() - i,
    {
        proof {
            reveal(Seq::filter);
            assert(all.take(i + 1).drop_last() =~= all.take(i as int));
            assert(all.take(i + 1).last() == models@[i as int]@);
            let kept = all.take(i as int).filter(ranks());
            if ranks()(models@[i as int]@) {
                assert(kept.push(models@[i as int]@).drop_last() =~= kept);
            }
        }
        let m = &models[i];
        if !same_text(m.model.as_str(), "unknown") && m.tokens > 0 {
            rank(&mut ranking, ModelUsage { model: m.model.clone(), tokens: m.tokens });
        }
        i += 1;
    }
    proof {
        assert(all.take(all.len() as int) =~= all);
    }
    if ranking.len() > 4 {
        let ghost full = model_views(ranking@);
        ranking.truncate(4);
        assert(model_views(ranking@) =~= full.take(4));
    }
    ranking
}

/// The value of the sums of a report.
pub struct TotalsView {
    pub last7_days_tokens: i64,
    pub last30_days_tokens: i64,
    pub last7_input_tokens: i64,
    pub last7_cached_input_tokens: i64,
    pub last7_day_count: usize,
    pub peak_day: Option<Seq<char>>,
    pub peak_day_tokens: i64,
}

impl View for LocalUsageTotals {
    type V = TotalsView;

    open spec fn view(&self) -> TotalsView {
        TotalsView {
            last7_days_tokens: self.last7_days_tokens,
            last30_days_tokens: self.last30_days_tokens,
            last7_input_tokens: self.last7_input_tokens,
            last7_cached_input_tokens: self.last7_cached_input_tokens,
            last7_day_count: self.last7_day_count,
            peak_day: option_text(self.peak_day),
            peak_day_tokens: self.peak_day_tokens,
        }
    }
}

/// The sums of some rows.
pub open spec fn totals_of(rows: Seq<DayRow>) -> TotalsView {
    TotalsView {
        last7_days_tokens: total_of(last_seven(rows)),
        last30_days_tokens: total_of(rows),
        last7_input_tokens: input_of(last_seven(rows)),
        last7_cached_input_tokens: cached_of(last_seven(rows)),
        last7_day_count: last_seven(rows).len() as usize,
        peak_day: peak_of(rows).0,
        peak_day_tokens: peak_of(rows).1,
    }
}

/// The sums of the days of a report.
pub fn sum_days(days: &Vec<LocalUsageDay>) -> (totals: LocalUsageTotals)
    ensures
        totals@ == totals_of(row_views(days@)),
{
    let ghost rows = row_views(days@);
    let n = days.len();
    let start: usize = if n <= 7 {
        0
    } else {
        n - 7
    };
    let mut all: i64 = 0;
    let mut peak: usize = 0;
    let mut i: usize = 0;
    proof {
        assert(rows.take(0) =~= Seq::<DayRow>::empty());
    }
    while i < n
        invariant
            i <= n,
            n == days.len(),
            rows == row_views(days@),
            all == total_of(rows.take(i as int)),
            i > 0 ==> peak == peak_index(rows.take(i as int)),
            i > 0 ==> peak < i,
        decreases n - i,
    {
        proof {
            assert(rows.take(i + 1).drop_last() =~= rows.take(i as int));
            assert(rows.take(i + 1).last() == days@[i as int]@);
            if i > 0 {
                assert(rows.take(i + 1)[peak as int] == days@[peak as int]@);
            } else {
                assert(peak_index(rows.take(0)) == -1);
            }
        }
        all = plus(all, days[i].total_tokens);
        if i == 0 || days[i].total_tokens >= days[peak].total_tokens {
            peak = i;
        }
        i += 1;
    }
    let ghost recent = last_seven(rows);
    let mut tokens: i64 = 0;
    let mut input: i64 = 0;
    let mut cached: i64 = 0;
    let mut k: usize = start;
    proof {
        assert(rows.take(n as int) =~= rows);
        assert(recent =~= rows.skip(start as int));
        assert(recent.take(0) =~= Seq::<DayRow>::empty());
    }
    while k < n
        invariant
            start <= k <= n,
            n == days.len(),
            rows == row_views(days@),
            recent == rows.skip(start as int),
            tokens == total_of(recent.take(k - start)),
            input == input_of(recent.take(k - start)),
            cached == cached_of(recent.take(k - start)),
        decreases n - k,
    {
        proof {
            assert(recent.take(k - start + 1).drop_last() =~= recent.take(k - start));
            assert(recent.take(k - start + 1).last() == days@[k as int]@);
        }
        tokens = plus(tokens, days[k].total_tokens);
        input = plus(input, days[k].input_tokens);
        cached = plus(cached, days[k].cached_input_tokens);
        k += 1;
    }
    proof {
        assert(recent.take(n - start) =~= recent);
        lemma_peak_index(rows);
    }
    let (peak_day, peak_day_tokens) = if n > 0 && days[peak].total_tokens > 0 {
        (Some(days[peak].day.clone()), days[peak].total_tokens)
    } else {
        (None, 0)
    };
    LocalUsageTotals {
        last7_days_tokens: tokens,
        last30_days_tokens: all,
        last7_input_tokens: input,
        last7_cached_input_tokens: cached,
        last7_day_count: n - start,
        peak_day,
        peak_day_tokens,
    }
}

/// Builds the usage report of the days `day_keys` from what was counted
/// for each day and for each model. A day without a count has no tokens.
pub fn build_snapshot(
    updated_at: i64,
    day_keys: Vec<String>,
    daily: Vec<DayUsage>,
    model_totals: Vec<ModelUsage>,
) -> (snapshot: LocalUsageSnapshot)
    ensures
        snapshot.updated_at == updated_at,
        row_views(snapshot.days@) == rows_of(texts(day_keys@), day_views(daily@)),
        snapshot.totals@ == totals_of(rows_of(texts(day_keys@), day_views(daily@))),
        model_views(snapshot.top_models@) == top_models_of(model_views(model_totals@)),
{
    let ghost rows = rows_of(texts(day_keys@), day_views(daily@));
    let mut days: Vec<LocalUsageDay> = Vec::new();
    let mut i: usize = 0;
    proof {
        assert(rows.take(0) =~= Seq::<DayRow>::empty());
        assert(row_views(days@) =~= Seq::<DayRow>::empty());
    }
    while i < day_keys.len()
        invariant
            i <= day_keys.len(),
            rows == rows_of(texts(day_keys@), day_views(daily@)),
            row_views(days@) == rows.take(i as int),
        decreases day_keys.len() - i,
    {
        let ghost so_far = row_views(days@);
        let t = day_totals(&daily, day_keys[i].as_str());
        days.push(
            LocalUsageDay {
                day: day_keys[i].clone(),
                input_tokens: t.input,
                cached_input_tokens: t.cached,
                output_tokens: t.output,
                total_tokens: plus(t.input, t.output),
            },
        );
        proof {
            assert(texts(day_keys@)[i as int] == day_keys@[i as int]@);
            assert(row_views(days@) =~= so_far.push(rows[i as int]));
            assert(rows.take(i + 1) =~= rows.take(i as int).push(rows[i as int]));
        }
        i += 1;
    }
    proof {
        assert(rows.take(rows.len() as int) =~= rows);
    }
    let totals = sum_days(&days);
    let top = top_models(&model_totals);
    LocalUsageSnapshot { updated_at, days, totals, top_models: top }
}

/// The number of days that a report covers: thirty where none is asked
/// for, and never fewer than one or more than ninety.
pub fn usage_window(days: Option<u32>) -> (r: u32)
    ensures
        r == match days {
            Some(n) => if n < 1 {
                1u32
            } else if n > 90 {
                90u32
            } else {
                n
            },
            None => 30u32,
        },
{
    match days {
        Some(n) => if n < 1 {
            1
        } else if n > 90 {
            90
        } else {
            n
        },
        None => 30,
    }
}

/// A variable of the environment as a directory: its value without the
/// whitespace at its ends, unless it is unset or blank.
pub open spec fn dir_from(value: Option<Seq<char>>) -> Option<Seq<char>> {
    match value {
        Some(text) => if trimmed(text).len() == 0 {
            None
        } else {
            Some(trimmed(text))
        },
        None => None,
    }
}

/// The home directory: `HOME`, or else `USERPROFILE`.
pub open spec fn home_dir_of(home: Option<Seq<char>>, user_profile: Option<Seq<char>>) -> Option<
    Seq<char>,
> {
    match dir_from(home) {
        Some(dir) => Some(dir),
        None => dir_from(user_profile),
    }
}

/// The directory of the agent's files: `CODEX_HOME`, or else `.codex` in
/// the home directory.
pub open spec fn codex_home_of(
    codex_home: Option<Seq<char>>,
    home: Option<Seq<char>>,
    user_profile: Option<Seq<char>>,
) -> Option<Seq<char>> {
    match dir_from(codex_home) {
        Some(dir) => Some(dir),
        None => match home_dir_of(home, user_profile) {
            Some(dir) => Some(joined(dir, ".codex"@)),
            None => None,
        },
    }
}

/// A variable of the environment as a directory.
fn dir_of(value: &Option<String>) -> (r: Option<String>)
    ensures
        option_text(r) == dir_from(option_text(*value)),
{
    match value {
        Some(text) => {
            let dir = trim(text.as_str());
            if dir.as_str().unicode_len() == 0 {
                None
            } else {
                Some(dir)
            }
        },
        None => None,
    }
}

/// The home directory, from the values of `HOME` and `USERPROFILE`.
pub fn resolve_home_dir(home: &Option<String>, user_profile: &Option<String>) -> (r: Option<String>)
    ensures
        option_text(r) == home_dir_of(option_text(*home), option_text(*user_profile)),
{
    match dir_of(home) {
        Some(dir) => Some(dir),
        None => dir_of(user_profile),
    }
}

/// The directory of the agent's files, from the values of `CODEX_HOME`,
/// `HOME` and `USERPROFILE`.
pub fn resolve_codex_home(
    codex_home: &Option<String>,
    home: &Option<String>,
    user_profile: &Option<String>,
) -> (r: Option<String>)
    ensures
        option_text(r) == codex_home_of(
            option_text(*codex_home),
            option_text(*home),
            option_text(*user_profile),
        ),
{
    match dir_of(codex_home) {
        Some(dir) => Some(dir),
        None => match resolve_home_dir(home, user_profile) {
            Some(dir) => Some(join_path(dir.as_str(), ".codex")),
            None => None,
        },
    }
}

/// The directory of the session logs: `sessions` in the directory of the
/// agent's files, where there is such a directory.
pub fn resolve_codex_sessions_root(
    codex_home: &Option<String>,
    home: &Option<String>,
    user_profile: &Option<String>,
) -> (r: Option<String>)
    ensures
        option_text(r) == match codex_home_of(
            option_text(*codex_home),
            option_text(*home),
            option_text(*user_profile),
        ) {
            Some(dir) => Some(joined(dir, "sessions"@)),
            None => None,
        },
{
    match resolve_codex_home(codex_home, home, user_profile) {
        Some(dir) => Some(join_path(dir.as_str(), "sessions")),
        None => None,
    }
}

/// The piece at `index` of a day key, and `fallback` where the key has no such piece.
pub open spec fn key_part(day_key: Seq<char>, index: int, fallback: Seq<char>) -> Seq<char> {
    if index < pieces(day_key, '-').len() {
        pieces(day_key, '-')[index]
    } else {
        fallback
    }
}

/// The directory of the logs of a day under `root`: year, month and day of
/// the key `year-month-day` as three directories, one in the other. A
/// month or a day that the key does not have is `01`.
pub open spec fn day_dir(root: Seq<char>, day_key: Seq<char>) -> Seq<char> {
    joined(
        joined(joined(root, key_part(day_key, 0, "1970"@)), key_part(day_key, 1, "01"@)),
        key_part(day_key, 2, "01"@),
    )
}

/// The directory of the logs of a day under `root`.
pub fn day_dir_for_key(root: &str, day_key: &str) -> (r: String)
    ensures
        r@ == day_dir(root@, day_key@),
{
    let parts = split(day_key, '-');
    proof {
        crate::text::lemma_pieces_len(day_key@, '-');
        assert(forall|i: int| 0 <= i < parts.len() ==> texts(parts@)[i] == parts@[i]@);
    }
    let year = join_path(root, parts[0].as_str());
    let month = if parts.len() > 1 {
        join_path(year.as_str(), parts[1].as_str())
    } else {
        join_path(year.as_str(), "01")
    };
    if parts.len() > 2 {
        join_path(month.as_str(), parts[2].as_str())
    } else {
        join_path(month.as_str(), "01")
    }
}

} // verus!
