//! The agent's side of its connection to the relay.
use vstd::prelude::*;

use crate::json::{items_view, lemma_items_view, Json, JsonView};
use crate::text::{
    join2, join3, opt_text, split, split_on, str_eq, strip_prefix, stripped, texts_view, to_chars,
    trim, trim_end_char, trimmed, without_trailing,
};

verus! {

// ---- addresses ----
/// Where an agent sends its messages.
pub open spec fn send_address(relay: Seq<char>) -> Seq<char> {
    without_trailing(relay, '/') + "/agent/send"@
}

pub fn send_url(relay_url: &str) -> (r: String)
    ensures
        r@ == send_address(relay_url@),
{
    join2(trim_end_char(relay_url, '/'), "/agent/send")
}

/// Where an agent receives its messages.
pub open spec fn events_address(relay: Seq<char>, sid: Seq<char>) -> Seq<char> {
    without_trailing(relay, '/') + "/agent/events?session="@ + sid
}

pub fn events_url(relay_url: &str, session_id: &str) -> (r: String)
    ensures
        r@ == events_address(relay_url@, session_id@),
{
    join3(trim_end_char(relay_url, '/'), "/agent/events?session=", session_id)
}

// ---- registering ----
/// Tokens with the names of their permissions.
pub type NamedTokens = Seq<(Seq<char>, Seq<char>)>;

pub open spec fn named_view(v: Seq<(String, String)>) -> NamedTokens {
    v.map_values(|e: (String, String)| (e.0@, e.1@))
}

pub open spec fn opt_named(o: Option<Vec<(String, String)>>) -> Option<NamedTokens> {
    match o {
        Some(v) => Some(named_view(v@)),
        None => None,
    }
}

/// A token with the name of its permission, as documents name them.
pub open spec fn named_token_doc(e: (Seq<char>, Seq<char>)) -> JsonView {
    JsonView::object().with_str("token"@, e.0).with_str("permission"@, e.1)
}

/// What an agent asks the relay to register. An agent that comes back brings its tokens along.
pub open spec fn register_doc(
    key: Option<Seq<char>>,
    token_type: Seq<char>,
    tokens: Option<NamedTokens>,
    session_id: Option<Seq<char>>,
) -> JsonView {
    let base = JsonView::object().with_str("type"@, "agent:register"@).with(
        "key"@,
        match key {
            Some(k) => JsonView::Str(k),
            None => JsonView::Null,
        },
    ).with_str("token_type"@, token_type);
    let with_tokens = match tokens {
        Some(toks) => base.with(
            "tokens"@,
            JsonView::Arr(toks.map_values(|e: (Seq<char>, Seq<char>)| named_token_doc(e))),
        ),
        None => base,
    };
    with_tokens.with_opt_str("session_id"@, session_id)
}

/// Makes the message that registers an agent.
pub fn register_message(
    key: &Option<String>,
    token_type: &str,
    tokens: &Option<Vec<(String, String)>>,
    session_id: &Option<String>,
) -> (r: Json)
    ensures
        r@ == register_doc(
            opt_text(*key),
            token_type@,
            opt_named(*tokens),
            opt_text(*session_id),
        ),
{
    let key_doc = match key {
        Some(k) => Json::text(k.as_str()),
        None => Json::Null,
    };
    let base = Json::object().with_str("type", "agent:register").with("key", key_doc).with_str(
        "token_type",
        token_type,
    );
    let with_tokens = match tokens {
        Some(toks) => {
            let mut items: Vec<Json> = Vec::new();
            let mut i: usize = 0;
            while i < toks.len()
                invariant
                    i <= toks@.len(),
                    items@.len() == i,
                    forall|j: int|
                        0 <= j < i ==> (#[trigger] items@[j])@ == named_token_doc(
                            (toks@[j].0@, toks@[j].1@),
                        ),
                decreases toks@.len() - i,
            {
                items.push(
                    Json::object().with_str("token", toks[i].0.as_str()).with_str(
                        "permission",
                        toks[i].1.as_str(),
                    ),
                );
                i = i + 1;
            }
            proof {
                lemma_items_view(items@);
                assert(items_view(items@) =~= named_view(toks@).map_values(
                    |e: (Seq<char>, Seq<char>)| named_token_doc(e),
                ));
            }
            base.with("tokens", Json::Arr(items))
        },
        None => base,
    };
    with_tokens.with_opt_str("session_id", session_id)
}

/// What the relay gave a registered agent.
pub struct Registration {
    pub session_id: String,
    pub tokens: Vec<(String, String)>,
}

/// Why a response to a registration is no registration.
pub enum RegisterFailure {
    NoSession,
    /// The response is of this type.
    WrongType(String),
    NoToken,
    NoPermission,
}

pub enum RegisterFailureView {
    NoSession,
    WrongType(Seq<char>),
    NoToken,
    NoPermission,
}

impl View for RegisterFailure {
    type V = RegisterFailureView;

    open spec fn view(&self) -> RegisterFailureView {
        match self {
            RegisterFailure::NoSession => RegisterFailureView::NoSession,
            RegisterFailure::WrongType(t) => RegisterFailureView::WrongType(t@),
            RegisterFailure::NoToken => RegisterFailureView::NoToken,
            RegisterFailure::NoPermission => RegisterFailureView::NoPermission,
        }
    }
}

impl RegisterFailureView {
    pub open spec fn text(self) -> Seq<char> {
        match self {
            RegisterFailureView::NoSession => "Missing session_id in register response"@,
            RegisterFailureView::WrongType(t) => "Unexpected register response type: "@ + t,
            RegisterFailureView::NoToken => "Missing token in tokens array"@,
            RegisterFailureView::NoPermission => "Missing permission in tokens array"@,
        }
    }
}

impl RegisterFailure {
    pub fn message(&self) -> (r: String)
        ensures
            r@ == self@.text(),
    {
        match self {
            RegisterFailure::NoSession => "Missing session_id in register response".to_owned(),
            RegisterFailure::WrongType(t) => join2(
                "Unexpected register response type: ",
                t.as_str(),
            ),
            RegisterFailure::NoToken => "Missing token in tokens array".to_owned(),
            RegisterFailure::NoPermission => "Missing permission in tokens array".to_owned(),
        }
    }
}

/// The tokens that items of a response name, or what the first item that names none lacks.
pub open spec fn read_named(items: Seq<JsonView>) -> Result<NamedTokens, RegisterFailureView>
    decreases items.len(),
{
    if items.len() == 0 {
        Ok(Seq::empty())
    } else {
        match read_named(items.drop_last()) {
            Err(e) => Err(e),
            Ok(toks) => match (
                items.last().str_field("token"@),
                items.last().str_field("permission"@),
            ) {
                (Some(t), Some(p)) => Ok(toks.push((t, p))),
                (None, _) => Err(RegisterFailureView::NoToken),
                (Some(_), None) => Err(RegisterFailureView::NoPermission),
            },
        }
    }
}

/// What a response to a registration gives the agent: a session, and the tokens that it lists.
pub open spec fn registration(response: JsonView) -> Result<
    (Seq<char>, NamedTokens),
    RegisterFailureView,
> {
    match response.str_field("session_id"@) {
        None => Err(RegisterFailureView::NoSession),
        Some(sid) => if response.str_or("type"@, ""@) != "agent:registered"@ {
            Err(RegisterFailureView::WrongType(response.str_or("type"@, ""@)))
        } else {
            match response.at("payload"@).at("tokens"@).as_arr() {
                None => Ok((sid, Seq::empty())),
                Some(items) => match read_named(items) {
                    Ok(toks) => Ok((sid, toks)),
                    Err(e) => Err(e),
                },
            }
        },
    }
}

pub open spec fn registration_view(r: Result<Registration, RegisterFailure>) -> Result<
    (Seq<char>, NamedTokens),
    RegisterFailureView,
> {
    match r {
        Ok(reg) => Ok((reg.session_id@, named_view(reg.tokens@))),
        Err(e) => Err(e@),
    }
}

proof fn lemma_read_named_err(items: Seq<JsonView>, i: int, e: RegisterFailureView)
    requires
        0 <= i < items.len(),
        read_named(items.take(i + 1)) == Err::<NamedTokens, RegisterFailureView>(e),
    ensures
        read_named(items) == Err::<NamedTokens, RegisterFailureView>(e),
    decreases items.len() - i,
{
    if i == items.len() - 1 {
        assert(items.take(i + 1) =~= items);
    } else {
        assert(items.take(i + 2).drop_last() =~= items.take(i + 1));
        lemma_read_named_err(items, i + 1, e);
    }
}

/// Reads a response to a registration.
pub fn handle_register_response(response: &Json) -> (r: Result<Registration, RegisterFailure>)
    ensures
        registration_view(r) == registration(response@),
{
    let sid = match response.str_field("session_id") {
        Some(s) => s,
        None => {
            return Err(RegisterFailure::NoSession);
        },
    };
    let t = response.str_or("type", "");
    if !str_eq(t, "agent:registered") {
        return Err(RegisterFailure::WrongType(t.to_owned()));
    }
    let list = response.at("payload").at("tokens");
    let mut tokens: Vec<(String, String)> = Vec::new();
    assert(named_view(tokens@) =~= Seq::<(Seq<char>, Seq<char>)>::empty());
    if let Some(items) = list.as_arr() {
        let ghost all = items_view(items@);
        proof {
            lemma_items_view(items@);
        }
        let mut i: usize = 0;
        assert(all.take(0) =~= Seq::<JsonView>::empty());
        while i < items.len()
            invariant
                i <= items@.len(),
                all == items_view(items@),
                all.len() == items@.len(),
                forall|j: int| 0 <= j < items@.len() ==> #[trigger] all[j] == items@[j]@,
                read_named(all.take(i as int)) == Ok::<NamedTokens, RegisterFailureView>(
                    named_view(tokens@),
                ),
                registration(response@) == match read_named(all) {
                    Ok(toks) => Ok((sid@, toks)),
                    Err(e) => Err(e),
                },
            decreases items@.len() - i,
        {
            assert(all.take(i + 1).drop_last() =~= all.take(i as int));
            assert(all.take(i + 1).last() == items@[i as int]@);
            let token = match items[i].str_field("token") {
                Some(t) => t,
                None => {
                    proof {
                        lemma_read_named_err(all, i as int, RegisterFailureView::NoToken);
                    }
                    return Err(RegisterFailure::NoToken);
                },
            };
            let permission = match items[i].str_field("permission") {
                Some(p) => p,
                None => {
                    proof {
                        lemma_read_named_err(all, i as int, RegisterFailureView::NoPermission);
                    }
                    return Err(RegisterFailure::NoPermission);
                },
            };
            let ghost before = named_view(tokens@);
            tokens.push((token.to_owned(), permission.to_owned()));
            assert(named_view(tokens@) =~= before.push((token@, permission@)));
            i = i + 1;
        }
        assert(all.take(all.len() as int) =~= all);
    }
    Ok(Registration { session_id: sid.to_owned(), tokens })
}

// ---- waiting between attempts ----
/// The longest wait between attempts to connect, in seconds.
pub const MAX_DELAY_SECS: u64 = 300;

/// The wait after a wait: twice as long, up to the longest.
pub open spec fn doubled(delay: u64) -> u64 {
    if 2 * delay < MAX_DELAY_SECS {
        (2 * delay) as u64
    } else {
        MAX_DELAY_SECS
    }
}

/// The wait after a wait.
pub fn next_delay(delay: u64) -> (r: u64)
    ensures
        r == doubled(delay),
{
    if delay < MAX_DELAY_SECS / 2 {
        2 * delay
    } else {
        MAX_DELAY_SECS
    }
}

/// The wait before attempt `n + 2`, in a series that begins with one second.
pub open spec fn delay_after(n: nat) -> u64
    decreases n,
{
    if n == 0 {
        1
    } else {
        doubled(delay_after((n - 1) as nat))
    }
}

/// Waits never shrink and never pass the longest; from the tenth on they are the longest.
pub proof fn delays_are_bounded(n: nat)
    ensures
        1 <= delay_after(n) <= MAX_DELAY_SECS,
        delay_after(n) <= delay_after(n + 1),
        n >= 9 ==> delay_after(n) == MAX_DELAY_SECS,
    decreases n,
{
    if n > 0 {
        delays_are_bounded((n - 1) as nat);
    }
    if n <= 9 {
        reveal_with_fuel(delay_after, 11);
    }
}

/// What is to be done after an attempt to connect failed.
#[derive(Debug, Clone, Copy, PartialEq, Eq, Structural)]
pub enum Retry {
    GiveUp,
    /// Wait for this many seconds and try again.
    After(u64),
}

/// What is to be done after attempt `attempt` failed: another session holding the asked-for id is
/// final, and so is the last attempt.
pub open spec fn retry_plan(status: Option<u16>, attempt: u32, max_retries: u32, delay: u64) -> Retry {
    if status == Some(409u16) || attempt >= max_retries {
        Retry::GiveUp
    } else {
        Retry::After(delay)
    }
}

/// Decides what is to be done after an attempt to connect failed, with this HTTP status if the relay
/// answered.
pub fn plan_retry(status: Option<u16>, attempt: u32, max_retries: u32, delay: u64) -> (r: Retry)
    ensures
        r == retry_plan(status, attempt, max_retries, delay),
{
    let conflict = match status {
        Some(s) => s == 409,
        None => false,
    };
    if conflict || attempt >= max_retries {
        Retry::GiveUp
    } else {
        Retry::After(delay)
    }
}

// ---- server-sent events ----
/// The data that the lines of an event carry: what follows `data:`, trimmed.
pub open spec fn line_data(lines: Seq<Seq<char>>) -> Seq<Seq<char>>
    decreases lines.len(),
{
    if lines.len() == 0 {
        Seq::empty()
    } else {
        let before = line_data(lines.drop_last());
        match stripped(lines.last(), "data:"@) {
            Some(d) => before.push(trimmed(d)),
            None => before,
        }
    }
}

/// The data that an event carries.
pub open spec fn event_data(event: Seq<char>) -> Seq<Seq<char>> {
    line_data(split_on(event, '\n'))
}

/// Whether a text ends with an empty line.
pub open spec fn ends_event(s: Seq<char>) -> bool {
    s.len() >= 2 && s[s.len() - 1] == '\n' && s[s.len() - 2] == '\n'
}

/// What a stream carries, read after `pending`: the data of each event that an empty line ends, and
/// what is left of an event that has not ended.
pub open spec fn read_stream(pending: Seq<char>, text: Seq<char>) -> (Seq<Seq<char>>, Seq<char>)
    decreases text.len(),
{
    if text.len() == 0 {
        (Seq::empty(), pending)
    } else {
        let (data, rest) = read_stream(pending, text.drop_last());
        let more = rest.push(text.last());
        if ends_event(more) {
            (data + event_data(more.take(more.len() - 2)), Seq::empty())
        } else {
            (data, more)
        }
    }
}

/// Reads events as their text comes in.
pub struct SseParser {
    pending: String,
}

impl View for SseParser {
    type V = Seq<char>;

    closed spec fn view(&self) -> Seq<char> {
        self.pending@
    }
}

fn data_of(event: &str) -> (r: Vec<String>)
    ensures
        texts_view(r@) == event_data(event@),
{
    let lines = split(event, '\n');
    let ghost all = texts_view(lines@);
    let mut r: Vec<String> = Vec::new();
    let mut i: usize = 0;
    assert(all.take(0) =~= Seq::<Seq<char>>::empty());
    assert(texts_view(r@) =~= Seq::<Seq<char>>::empty());
    while i < lines.len()
        invariant
            i <= lines@.len(),
            all == texts_view(lines@),
            texts_view(r@) == line_data(all.take(i as int)),
        decreases lines@.len() - i,
    {
        assert(all.take(i + 1).drop_last() =~= all.take(i as int));
        assert(all.take(i + 1).last() == lines@[i as int]@);
        if let Some(d) = strip_prefix(lines[i].as_str(), "data:") {
            let ghost before = texts_view(r@);
            r.push(trim(d).to_owned());
            assert(texts_view(r@) =~= before.push(trimmed(d@)));
        }
        i = i + 1;
    }
    assert(all.take(all.len() as int) =~= all);
    r
}

impl SseParser {
    pub fn new() -> (p: Self)
        ensures
            p@ == Seq::<char>::empty(),
    {
        SseParser { pending: String::new() }
    }

    /// Takes text that came, and returns the data of the events that it ends.
    pub fn feed(&mut self, text: &str) -> (r: Vec<String>)
        ensures
            (texts_view(r@), final(self)@) == read_stream(old(self)@, text@),
    {
        let v = to_chars(text);
        let ghost before = self@;
        let mut pending = to_chars(self.pending.as_str());
        let mut r: Vec<String> = Vec::new();
        let mut i: usize = 0;
        assert(text@.take(0) =~= Seq::<char>::empty());
        assert(texts_view(r@) =~= Seq::<Seq<char>>::empty());
        while i < v.len()
            invariant
                i <= v@.len(),
                v@ == text@,
                (texts_view(r@), pending@) == read_stream(before, text@.take(i as int)),
            decreases v@.len() - i,
        {
            assert(text@.take(i + 1).drop_last() =~= text@.take(i as int));
            pending.push(v[i]);
            let n = pending.len();
            if n >= 2 && pending[n - 1] == '\n' && pending[n - 2] == '\n' {
                let event = crate::text::from_chars(&pending, 0, n - 2);
                assert(event@ =~= pending@.take(n - 2));
                let data = data_of(event.as_str());
                let ghost done = texts_view(r@);
                let ghost add = texts_view(data@);
                let mut data = data;
                r.append(&mut data);
                assert(texts_view(r@) =~= done + add);
                pending = Vec::new();
            }
            i = i + 1;
        }
        assert(text@.take(text@.len() as int) =~= text@);
        let n = pending.len();
        let rest = crate::text::from_chars(&pending, 0, n);
        assert(rest@ =~= pending@);
        self.pending = rest;
        r
    }
}

/// It does not matter in which pieces the text of a stream comes.
pub proof fn pieces_do_not_matter(pending: Seq<char>, a: Seq<char>, b: Seq<char>)
    ensures
        ({
            let (first, rest) = read_stream(pending, a);
            let (second, end) = read_stream(rest, b);
            read_stream(pending, a + b) == (first + second, end)
        }),
    decreases b.len(),
{
    let (first, rest) = read_stream(pending, a);
    if b.len() == 0 {
        assert(a + b =~= a);
        assert(first + Seq::<Seq<char>>::empty() =~= first);
    } else {
        pieces_do_not_matter(pending, a, b.drop_last());
        assert((a + b).drop_last() =~= a + b.drop_last());
        assert((a + b).last() == b.last());
        let (second, mid) = read_stream(rest, b.drop_last());
        let more = mid.push(b.last());
        if ends_event(more) {
            let d = event_data(more.take(more.len() - 2));
            assert((first + second) + d =~= first + (second + d));
        }
    }
}

} // verus!
