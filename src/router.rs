use vstd::prelude::*;
use vstd::string::*;

verus! {

/// Route reported for a request line with fewer than two tokens.
pub const ERROR_ROUTE: &'static str = "/error";

pub const ROOT_ROUTE: &'static str = "/";

/// Route whose reply is held back by `SLEEP_SECS` seconds.
pub const SLEEP_ROUTE: &'static str = "/sleep";

/// Delay, in seconds, of the reply on `SLEEP_ROUTE`.
pub const SLEEP_SECS: u64 = 5;

pub const OK_STATUS: &'static str = "HTTP/1.1 200 OK";

pub const NOT_FOUND_STATUS: &'static str = "HTTP/1.1 404 NOT FOUND";

pub const BAD_REQUEST_STATUS: &'static str = "HTTP/1.1 400 BAD REQUEST";

pub const INDEX_PAGE: &'static str = "index.html";

pub const ERROR_PAGE: &'static str = "error.html";

/// What follows the status line, up to the body length.
pub const LENGTH_HEADER: &'static str = "\r\nContent-Length: ";

/// What separates the body length from the body.
pub const BLANK_LINE: &'static str = "\r\n\r\n";

/// The kind of response chosen for a request.
pub enum Response {
    BadRequest,
    NotFound,
    Success(&'static str),
}

/// The closed set of routes that the dispatcher tells apart.
#[derive(Clone, Copy, Debug, PartialEq, Eq, Structural)]
pub enum Route {
    Root,
    Sleep,
    Unknown,
}

/// What the responder does for a request: the response to send, after
/// waiting `delay_secs` seconds.
pub struct Reply {
    pub response: Response,
    pub delay_secs: u64,
}

/// Index of the first space of `s` at or after `k`, or `s.len()` if none.
pub open spec fn space_from(s: Seq<char>, k: int) -> int
    recommends
        0 <= k <= s.len(),
    decreases s.len() - k,
{
    if k >= s.len() {
        s.len() as int
    } else if s[k] == ' ' {
        k
    } else {
        space_from(s, k + 1)
    }
}

/// The second space-delimited token of a request line, or `ERROR_ROUTE`
/// when the line is absent or has fewer than two tokens.
pub open spec fn route_of(line: Option<Seq<char>>) -> Seq<char> {
    match line {
        None => ERROR_ROUTE@,
        Some(s) => {
            let i = space_from(s, 0);
            if i >= s.len() {
                ERROR_ROUTE@
            } else {
                s.subrange(i + 1, space_from(s, i + 1))
            }
        },
    }
}

pub open spec fn route_kind(route: Seq<char>) -> Route {
    if route == ROOT_ROUTE@ {
        Route::Root
    } else if route == SLEEP_ROUTE@ {
        Route::Sleep
    } else {
        Route::Unknown
    }
}

/// Status line and page name of a response.
pub open spec fn descriptor(response: Response) -> (Seq<char>, Seq<char>) {
    match response {
        Response::BadRequest => (BAD_REQUEST_STATUS@, ERROR_PAGE@),
        Response::NotFound => (NOT_FOUND_STATUS@, ERROR_PAGE@),
        Response::Success(page) => (OK_STATUS@, page@),
    }
}

/// Status line and page name owed to a request line.
pub open spec fn dispatch(line: Option<Seq<char>>) -> (Seq<char>, Seq<char>) {
    match line {
        None => (BAD_REQUEST_STATUS@, ERROR_PAGE@),
        Some(_) => match route_kind(route_of(line)) {
            Route::Root | Route::Sleep => (OK_STATUS@, INDEX_PAGE@),
            Route::Unknown => (NOT_FOUND_STATUS@, ERROR_PAGE@),
        },
    }
}

/// Seconds to wait before replying to a request line.
pub open spec fn delay_of(line: Option<Seq<char>>) -> u64 {
    if line is Some && route_kind(route_of(line)) == Route::Sleep {
        SLEEP_SECS
    } else {
        0
    }
}

/// `reply` is the one owed to the request line `line`.
pub open spec fn reply_for(line: Option<Seq<char>>, reply: Reply) -> bool {
    &&& descriptor(reply.response) == dispatch(line)
    &&& (reply.response is BadRequest <==> line is None)
    &&& (reply.response is NotFound <==> (line is Some && route_kind(route_of(line))
        == Route::Unknown))
    &&& reply.delay_secs == delay_of(line)
}

/// ASCII decimal digits of `n`, most significant first.
pub open spec fn decimal(n: nat) -> Seq<u8>
    decreases n,
{
    if n < 10 {
        seq![(48 + n) as u8]
    } else {
        decimal(n / 10).push((48 + n % 10) as u8)
    }
}

/// The bytes of a response with the given status line and body.
pub open spec fn framed(status_line: Seq<u8>, body: Seq<u8>) -> Seq<u8> {
    status_line + LENGTH_HEADER.spec_bytes() + decimal(body.len()) + BLANK_LINE.spec_bytes() + body
}

pub open spec fn opt_view(line: &Option<String>) -> Option<Seq<char>> {
    match line {
        None => None,
        Some(s) => Some(s@),
    }
}

fn find_space(s: &str, n: usize, from: usize) -> (r: usize)
    requires
        n == s@.len(),
        from <= n,
    ensures
        r == space_from(s@, from as int),
        from <= r <= n,
{
    let mut k: usize = from;
    while k < n
        invariant
            n == s@.len(),
            from <= k <= n,
            space_from(s@, from as int) == space_from(s@, k as int),
        decreases n - k,
    {
        if s.get_char(k) == ' ' {
            return k;
        }
        k = k + 1;
    }
    k
}

/// No character of `s` is a space.
pub open spec fn no_space(s: Seq<char>) -> bool {
    forall|k: int| 0 <= k < s.len() ==> s[k] != ' '
}

/// The request line "METHOD PATH VERSION".
pub open spec fn request_line(method: Seq<char>, path: Seq<char>, version: Seq<char>) -> Seq<
    char,
> {
    method + seq![' '] + path + seq![' '] + version
}

proof fn lemma_space_skip(s: Seq<char>, k: int, j: int)
    requires
        0 <= k <= j <= s.len(),
        forall|m: int| k <= m < j ==> s[m] != ' ',
    ensures
        space_from(s, k) == space_from(s, j),
    decreases j - k,
{
    if k < j {
        lemma_space_skip(s, k + 1, j);
    }
}

/// The route of a request line "METHOD PATH VERSION", where neither the
/// method nor the path holds a space, is its path, whatever the version.
pub proof fn lemma_route_of_request_line(method: Seq<char>, path: Seq<char>, version: Seq<char>)
    requires
        no_space(method),
        no_space(path),
    ensures
        route_of(Some(request_line(method, path, version))) == path,
{
    let s = request_line(method, path, version);
    let i = method.len() as int;
    let j = i + 1 + path.len();
    assert(forall|m: int| 0 <= m < i ==> s[m] == method[m]);
    lemma_space_skip(s, 0, i);
    assert(s[i] == ' ');
    assert(forall|m: int| i + 1 <= m < j ==> s[m] == path[m - i - 1]);
    lemma_space_skip(s, i + 1, j);
    assert(s[j] == ' ');
    assert(s.subrange(i + 1, j) =~= path);
}

/// Every request line whose route is `/` is answered with status 200 and
/// the index page, without delay.
pub proof fn lemma_root_served(method: Seq<char>, version: Seq<char>)
    requires
        no_space(method),
    ensures
        dispatch(Some(request_line(method, ROOT_ROUTE@, version))) == (OK_STATUS@, INDEX_PAGE@),
        delay_of(Some(request_line(method, ROOT_ROUTE@, version))) == 0,
{
    reveal_strlit("/");
    lemma_route_of_request_line(method, ROOT_ROUTE@, version);
}

/// Every request line whose route is `/sleep` is answered with status 200
/// and the index page, after a delay of `SLEEP_SECS` seconds.
pub proof fn lemma_sleep_served(method: Seq<char>, version: Seq<char>)
    requires
        no_space(method),
    ensures
        dispatch(Some(request_line(method, SLEEP_ROUTE@, version))) == (OK_STATUS@, INDEX_PAGE@),
        delay_of(Some(request_line(method, SLEEP_ROUTE@, version))) == SLEEP_SECS,
{
    reveal_strlit("/");
    reveal_strlit("/sleep");
    lemma_route_of_request_line(method, SLEEP_ROUTE@, version);
}

/// Every request line whose route is neither `/` nor `/sleep` is answered
/// with status 404 and the error page, without delay.
pub proof fn lemma_unknown_not_found(method: Seq<char>, path: Seq<char>, version: Seq<char>)
    requires
        no_space(method),
        no_space(path),
        path != ROOT_ROUTE@,
        path != SLEEP_ROUTE@,
    ensures
        dispatch(Some(request_line(method, path, version))) == (NOT_FOUND_STATUS@, ERROR_PAGE@),
        delay_of(Some(request_line(method, path, version))) == 0,
{
    lemma_route_of_request_line(method, path, version);
}

/// A line with fewer than two tokens (no space at all) gets the sentinel
/// route and is answered as an unknown route is: status 404, the error page.
pub proof fn lemma_single_token_not_found(line: Seq<char>)
    requires
        no_space(line),
    ensures
        route_of(Some(line)) == ERROR_ROUTE@,
        route_kind(ERROR_ROUTE@) == Route::Unknown,
        dispatch(Some(line)) == (NOT_FOUND_STATUS@, ERROR_PAGE@),
        delay_of(Some(line)) == 0,
{
    reveal_strlit("/");
    reveal_strlit("/sleep");
    reveal_strlit("/error");
    lemma_space_skip(line, 0, line.len() as int);
    assert(ERROR_ROUTE@.len() != ROOT_ROUTE@.len());
    assert(ERROR_ROUTE@[1] != SLEEP_ROUTE@[1]);
}

/// Dispatch is a function of the request line alone: two replies owed to
/// the same line have the same response kind, descriptor and delay.
pub proof fn lemma_reply_deterministic(line: Option<Seq<char>>, a: Reply, b: Reply)
    requires
        reply_for(line, a),
        reply_for(line, b),
    ensures
        descriptor(a.response) == descriptor(b.response),
        a.response is BadRequest <==> b.response is BadRequest,
        a.response is NotFound <==> b.response is NotFound,
        a.response is Success <==> b.response is Success,
        a.delay_secs == b.delay_secs,
{
}

fn push_decimal(out: &mut Vec<u8>, n: usize)
    ensures
        final(out)@ == old(out)@ + decimal(n as nat),
    decreases n,
{
    if n >= 10 {
        push_decimal(out, n / 10);
    }
    let d: u8 = (n % 10) as u8;
    out.push(48 + d);
    assert(final(out)@ =~= old(out)@ + decimal(n as nat));
}

/// Tells the routes apart, comparing whole tokens, case-sensitively.
pub fn classify(route: &String) -> (r: Route)
    ensures
        r == route_kind(route@),
{
    if *route == String::from_str(ROOT_ROUTE) {
        Route::Root
    } else if *route == String::from_str(SLEEP_ROUTE) {
        Route::Sleep
    } else {
        Route::Unknown
    }
}

/// The bytes sent for a response: the status line, a `Content-Length`
/// header giving the body's length in bytes, a blank line and the body.
pub fn frame_response(status_line: &str, body: &str) -> (r: Vec<u8>)
    ensures
        r@ == framed(status_line.spec_bytes(), body.spec_bytes()),
{
    let mut out = status_line.as_bytes_vec();
    let mut header = LENGTH_HEADER.as_bytes_vec();
    out.append(&mut header);
    let mut contents = body.as_bytes_vec();
    push_decimal(&mut out, contents.len());
    let mut blank = BLANK_LINE.as_bytes_vec();
    out.append(&mut blank);
    out.append(&mut contents);
    out
}

pub struct Router {
    request_line: Option<String>,
}

impl View for Router {
    type V = Option<Seq<char>>;

    closed spec fn view(&self) -> Option<Seq<char>> {
        opt_view(&self.request_line)
    }
}

impl Router {
    pub fn new(request_line: Option<String>) -> (r: Self)
        ensures
            r@ == opt_view(&request_line),
    {
        Self { request_line }
    }

    /// Extracts the route (the second space-delimited token) of a request line
    /// of the shape "METHOD ROUTE VERSION".
    pub fn get_route(request_line: &Option<String>) -> (r: String)
        ensures
            r@ == route_of(opt_view(request_line)),
    {
        match request_line {
            None => String::from_str(ERROR_ROUTE),
            Some(line) => {
                let s = line.as_str();
                let n = s.unicode_len();
                let i = find_space(s, n, 0);
                if i >= n {
                    return String::from_str(ERROR_ROUTE);
                }
                let j = find_space(s, n, i + 1);
                String::from_str(s.substring_char(i + 1, j))
            },
        }
    }

    /// Chooses the reply to this router's request line: a bad request when
    /// there is none, otherwise by its route.
    pub fn respond(&self) -> (r: Reply)
        ensures
            reply_for(self@, r),
    {
        if self.request_line.is_none() {
            return Reply { response: Response::BadRequest, delay_secs: 0 };
        }
        let route = Self::get_route(&self.request_line);
        match classify(&route) {
            Route::Root => Reply { response: Response::Success(INDEX_PAGE), delay_secs: 0 },
            Route::Sleep => Reply { response: Response::Success(INDEX_PAGE), delay_secs: SLEEP_SECS },
            Route::Unknown => Reply { response: Response::NotFound, delay_secs: 0 },
        }
    }

    /// The status line and page name of a response.
    pub fn prepare_response(response: Response) -> (r: (&'static str, &'static str))
        ensures
            (r.0@, r.1@) == descriptor(response),
            response matches Response::Success(page) ==> r.1 == page,
    {
        match response {
            Response::BadRequest => (BAD_REQUEST_STATUS, ERROR_PAGE),
            Response::NotFound => (NOT_FOUND_STATUS, ERROR_PAGE),
            Response::Success(page) => (OK_STATUS, page),
        }
    }
}

} // verus!
