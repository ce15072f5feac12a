//! The member API: its data, the requests it takes and the replies it gives.

use crate::batch::batches_of;
use crate::batch::partition;
use crate::credentials::build_credentials;
use crate::credentials::credential_token;
use crate::error::classify;
use crate::error::error_check;
use crate::error::Error;
use crate::text::decimal;
use crate::text::push_decimal;
use crate::text::text_of;
use url::Url;
use vstd::prelude::*;
use vstd::string::*;

verus! {

/// Origin of the member API.
pub const BASE_URL: &'static str = "https://members-ng.iracing.com/";

/// Path of the authentication endpoint, relative to the origin.
pub const AUTH_PATH: &'static str = "auth";

/// Path of the member data endpoint, relative to the origin.
pub const MEMBER_PATH: &'static str = "data/member/get/";

/// One row of the driver list: the identifier of a driver to look up.
#[derive(Debug, Clone, Copy, PartialEq, Eq)]
pub struct CsvUser {
    pub id: u32,
}

/// A license of a member in one discipline.
#[derive(Debug, Clone, PartialEq, Eq)]
pub struct License {
    /// Tag of the discipline: `road`, `oval`, `dirt_road` or `dirt_oval`.
    pub category: String,
    /// Skill rating; zero where the payload gives none.
    pub irating: u32,
    /// Name of the license tier.
    pub group_name: String,
    /// Safety rating, as the decimal text that the report shows.
    pub safety_rating: String,
}

/// A license as plain values.
pub struct LicenseView {
    pub category: Seq<char>,
    pub irating: u32,
    pub group_name: Seq<char>,
    pub safety_rating: Seq<char>,
}

impl View for License {
    type V = LicenseView;

    open spec fn view(&self) -> LicenseView {
        LicenseView {
            category: self.category@,
            irating: self.irating,
            group_name: self.group_name@,
            safety_rating: self.safety_rating@,
        }
    }
}

/// The licenses of a list as plain values.
pub open spec fn license_views(licenses: Seq<License>) -> Seq<LicenseView> {
    licenses.map_values(|license: License| license@)
}

/// A member of the service, with the licenses in the order of the payload.
#[derive(Debug, Clone, PartialEq, Eq)]
pub struct Member {
    pub cust_id: u32,
    pub display_name: String,
    pub licenses: Vec<License>,
}

/// A member as plain values.
pub struct MemberView {
    pub cust_id: u32,
    pub display_name: Seq<char>,
    pub licenses: Seq<LicenseView>,
}

impl View for Member {
    type V = MemberView;

    open spec fn view(&self) -> MemberView {
        MemberView {
            cust_id: self.cust_id,
            display_name: self.display_name@,
            licenses: license_views(self.licenses@),
        }
    }
}

/// The members of a list as plain values.
pub open spec fn member_views(members: Seq<Member>) -> Seq<MemberView> {
    members.map_values(|member: Member| member@)
}

/// The success shape of a member payload.
#[derive(Debug, Clone, PartialEq, Eq)]
pub struct Members {
    pub members: Vec<Member>,
}

/// What a payload turned out to be: the data asked for, or something else
/// about which nothing more is known.
#[derive(Debug, Clone, PartialEq, Eq)]
pub enum ApiResponse<T> {
    Success { data: T },
    Failure,
}

/// The answer of a data endpoint: the address at which the payload waits.
#[derive(Debug, Clone, PartialEq, Eq)]
pub struct LinkResponse {
    pub link: String,
}

/// Body of the login request.
#[derive(Debug, Clone, PartialEq, Eq)]
pub struct LoginData {
    pub email: String,
    /// The derived token, never the password itself.
    pub password: String,
}

/// A request for the transport to send.
#[derive(Debug, Clone, PartialEq, Eq)]
pub enum Request {
    /// POST `body` as JSON to `url`, keeping the cookies of the answer.
    Login { url: String, body: LoginData },
    /// GET `url` with the query parameters `cust_ids` and `include_licenses`.
    Members { url: String, cust_ids: String, include_licenses: bool },
    /// GET `url`, the address taken from a link object.
    Link { url: String },
}

/// A request as plain values.
pub enum RequestView {
    Login { url: Seq<char>, email: Seq<char>, password: Seq<char> },
    Members { url: Seq<char>, cust_ids: Seq<char>, include_licenses: bool },
    Link { url: Seq<char> },
}

impl View for Request {
    type V = RequestView;

    open spec fn view(&self) -> RequestView {
        match *self {
            Request::Login { url, body } => RequestView::Login {
                url: url@,
                email: body.email@,
                password: body.password@,
            },
            Request::Members { url, cust_ids, include_licenses } => RequestView::Members {
                url: url@,
                cust_ids: cust_ids@,
                include_licenses,
            },
            Request::Link { url } => RequestView::Link { url: url@ },
        }
    }
}

/// What to read the body of a response as.
#[derive(Debug, Clone, Copy, PartialEq, Eq, Structural)]
pub enum Shape {
    /// Nothing: the body is left unread.
    Nothing,
    /// A link object.
    Link,
    /// A member payload.
    Payload,
}

/// The shape to read the body as, for the response to `request` with the
/// status `status`. Under a status that fails the body is not read, for a
/// maintenance page or an error page has none of the shapes. The answer to
/// a login is not read either. A member query is answered by a link object,
/// and a link leads to the payload.
pub open spec fn awaited_shape(request: RequestView, status: u16) -> Shape {
    if classify(status) is Err {
        Shape::Nothing
    } else {
        match request {
            RequestView::Login { .. } => Shape::Nothing,
            RequestView::Members { .. } => Shape::Link,
            RequestView::Link { .. } => Shape::Payload,
        }
    }
}

impl Request {
    /// Tells what to read the body of the response as, once its status is known.
    pub fn awaits(&self, status: u16) -> (shape: Shape)
        ensures
            shape == awaited_shape(self@, status),
    {
        match error_check(status) {
            Err(_) => Shape::Nothing,
            Ok(_) => match self {
                Request::Login { .. } => Shape::Nothing,
                Request::Members { .. } => Shape::Link,
                Request::Link { .. } => Shape::Payload,
            },
        }
    }
}

/// What the transport read from the body of a response.
#[derive(Debug, Clone, PartialEq, Eq)]
pub enum Body {
    /// The body was not read.
    Unread,
    /// The body parsed as a link object.
    Link(LinkResponse),
    /// The body parsed as a member payload, of the success shape or not.
    Payload(ApiResponse<Members>),
    /// The body parsed as neither.
    Malformed,
}

/// What came back for a request.
#[derive(Debug, Clone, PartialEq, Eq)]
pub enum Reply {
    /// No response: the connection failed.
    TransportFailure,
    /// A response with its status code and what was read of its body.
    Http { status: u16, body: Body },
}

/// The identifiers of `ids`, in decimal, separated by commas.
pub open spec fn comma_joined(ids: Seq<u32>) -> Seq<char>
    decreases ids.len(),
{
    if ids.len() == 0 {
        Seq::empty()
    } else if ids.len() == 1 {
        decimal(ids[0] as nat)
    } else {
        comma_joined(ids.drop_last()) + seq![','] + decimal(ids.last() as nat)
    }
}

/// Writes the identifiers of `ids` as one query value.
pub fn join_ids(ids: &Vec<u32>) -> (joined: String)
    ensures
        joined@ == comma_joined(ids@),
{
    let mut joined = String::new();
    let mut i: usize = 0;
    while i < ids.len()
        invariant
            i <= ids.len(),
            joined@ == comma_joined(ids@.take(i as int)),
        decreases ids.len() - i,
    {
        if i > 0 {
            proof {
                reveal_strlit(",");
            }
            joined.append(",");
        }
        push_decimal(&mut joined, ids[i] as u64);
        proof {
            let next = ids@.take(i + 1);
            assert(next.drop_last() =~= ids@.take(i as int));
            assert(next.last() == ids@[i as int]);
            assert(joined@ =~= comma_joined(next));
        }
        i += 1;
    }
    assert(ids@.take(ids.len() as int) =~= ids@);
    joined
}

/// The identifiers of a driver list, in its order.
pub open spec fn driver_ids(drivers: Seq<CsvUser>) -> Seq<u32> {
    drivers.map_values(|driver: CsvUser| driver.id)
}

/// The address that `url` gives for `reference` taken relative to `base`;
/// `None` where `base` is no absolute address or `reference` cannot be resolved.
pub uninterp spec fn resolved_url(base: Seq<char>, reference: Seq<char>) -> Option<Seq<char>>;

/// Calls `Url::parse` on `base`, `Url::join` with `reference` on what that
/// gives, and takes the text of the result. The contract only names the
/// address; a failure of either call gives `None`.
#[verifier::external_body]
fn resolve_url(base: &str, reference: &str) -> (address: Option<String>)
    ensures
        address is Some <==> resolved_url(base@, reference@) is Some,
        address matches Some(text) ==> resolved_url(base@, reference@) == Some(text@),
{
    match Url::parse(base) {
        Ok(origin) => match origin.join(reference) {
            Ok(joined) => Some(String::from(joined)),
            Err(_) => None,
        },
        Err(_) => None,
    }
}

/// The verdict on a reply before any of its body is looked at.
pub open spec fn reply_verdict(reply: Reply) -> Result<(), Error> {
    match reply {
        Reply::TransportFailure => Err(Error::TransportError),
        Reply::Http { status, body } => classify(status),
    }
}

/// Which response of the link indirection is awaited.
#[derive(Debug, Clone, Copy, PartialEq, Eq, Structural)]
pub enum Hop {
    /// The data endpoint's answer, a link object.
    Link,
    /// The answer at the link's address, the payload.
    Payload,
}

/// What follows a reply within one link indirection.
#[derive(Debug, Clone, PartialEq, Eq)]
pub enum LinkStep {
    /// The link object arrived: fetch the address it names.
    Follow(Request),
    /// The payload arrived.
    Done(ApiResponse<Members>),
    /// The retrieval failed.
    Abort(Error),
}

/// The step that a reply leads to: the status decides first, then the body
/// must be of the shape that the hop awaits.
pub open spec fn link_step(hop: Hop, reply: Reply) -> LinkStep {
    match reply {
        Reply::TransportFailure => LinkStep::Abort(Error::TransportError),
        Reply::Http { status, body } => match classify(status) {
            Err(e) => LinkStep::Abort(e),
            Ok(_) => match (hop, body) {
                (Hop::Link, Body::Link(target)) => LinkStep::Follow(Request::Link { url: target.link }),
                (Hop::Payload, Body::Payload(payload)) => LinkStep::Done(payload),
                _ => LinkStep::Abort(Error::DeserializationError),
            },
        },
    }
}

/// Advances one link indirection by a reply.
///
/// The first response of a data endpoint carries a link object, and the
/// payload waits at the address it names. Either response may be a
/// maintenance page or an error, which the status shows before the body is
/// looked at.
pub fn make_link_request(hop: Hop, reply: Reply) -> (step: LinkStep)
    ensures
        step == link_step(hop, reply),
{
    match reply {
        Reply::TransportFailure => LinkStep::Abort(Error::TransportError),
        Reply::Http { status, body } => match error_check(status) {
            Err(e) => LinkStep::Abort(e),
            Ok(_) => match hop {
                Hop::Link => match body {
                    Body::Link(target) => LinkStep::Follow(Request::Link { url: target.link }),
                    _ => LinkStep::Abort(Error::DeserializationError),
                },
                Hop::Payload => match body {
                    Body::Payload(payload) => LinkStep::Done(payload),
                    _ => LinkStep::Abort(Error::DeserializationError),
                },
            },
        },
    }
}

/// A login that has been asked for and not yet answered.
#[derive(Debug)]
pub struct LoginAttempt {
    base_url: String,
}

/// An authenticated session: it exists only once a login has been answered
/// with success. The cookies that carry it live in the transport.
#[derive(Debug)]
pub struct IRacingService {
    base_url: String,
}

/// The request that begins a login, given the address of the authentication
/// endpoint, if it has one, and the token derived for the account.
pub open spec fn login_start(url: Option<Seq<char>>, email: Seq<char>, token: Seq<char>) -> Result<
    RequestView,
    Error,
> {
    match url {
        None => Err(Error::UrlError),
        Some(url) => Ok(RequestView::Login { url, email, password: token }),
    }
}

impl LoginAttempt {
    /// Origin that the login was sent to.
    pub closed spec fn origin(&self) -> Seq<char> {
        self.base_url@
    }

    /// Forms the login request for an account whose token has been derived,
    /// to be sent to `url`, the address of the authentication endpoint.
    pub fn begin(url: Option<String>, email: String, token: String) -> (started: Result<
        (Request, LoginAttempt),
        Error,
    >)
        ensures
            match started {
                Ok((request, attempt)) => {
                    &&& login_start(text_of(url), email@, token@) == Ok::<RequestView, Error>(request@)
                    &&& attempt.origin() == BASE_URL@
                },
                Err(e) => login_start(text_of(url), email@, token@) == Err::<RequestView, Error>(e),
            },
    {
        match url {
            None => Err(Error::UrlError),
            Some(url) => {
                let request = Request::Login { url, body: LoginData { email, password: token } };
                Ok((request, LoginAttempt { base_url: BASE_URL.to_owned() }))
            },
        }
    }

    /// Closes the login with the reply to its request. The status alone
    /// decides; the body of a login response is not read. Any verdict but
    /// success ends the attempt with that error.
    pub fn complete(self, reply: &Reply) -> (session: Result<IRacingService, Error>)
        ensures
            match session {
                Ok(service) => reply_verdict(*reply) is Ok && service.origin() == self.origin(),
                Err(e) => reply_verdict(*reply) == Err::<(), Error>(e),
            },
    {
        match reply {
            Reply::TransportFailure => Err(Error::TransportError),
            Reply::Http { status, body } => match error_check(*status) {
                Err(e) => Err(e),
                Ok(_) => Ok(IRacingService { base_url: self.base_url }),
            },
        }
    }
}

/// The query that asks for the members of one batch, with their licenses.
pub open spec fn members_request(endpoint: Seq<char>, batch: Seq<u32>) -> RequestView {
    RequestView::Members { url: endpoint, cust_ids: comma_joined(batch), include_licenses: true }
}

/// A retrieval of driver details that waits for a reply.
#[derive(Debug)]
pub struct DriverFetch {
    endpoint: String,
    batches: Vec<Vec<u32>>,
    cursor: usize,
    hop: Hop,
    members: Vec<Member>,
}

/// A waiting retrieval as plain values.
pub struct FetchView {
    /// Address of the member data endpoint.
    pub endpoint: Seq<char>,
    /// All batches of the driver list, in order.
    pub batches: Seq<Seq<u32>>,
    /// Index of the batch that is under way.
    pub cursor: nat,
    /// Which response of that batch is awaited.
    pub hop: Hop,
    /// The members of the batches before it, in order.
    pub members: Seq<Member>,
}

/// What a retrieval asks of its driver next.
#[derive(Debug)]
pub enum Progress {
    /// Send the request, then resume the retrieval with the reply.
    Send(Request, DriverFetch),
    /// Every batch was answered: the members, in the order of the batches.
    Done(Vec<Member>),
    /// The retrieval failed, and nothing of it is handed out.
    Abort(Error),
}

/// The next move of a retrieval as plain values.
pub enum ProgressView {
    Send(RequestView, FetchView),
    Done(Seq<Member>),
    Abort(Error),
}

impl View for DriverFetch {
    type V = FetchView;

    closed spec fn view(&self) -> FetchView {
        FetchView {
            endpoint: self.endpoint@,
            batches: self.batches.deep_view(),
            cursor: self.cursor as nat,
            hop: self.hop,
            members: self.members@,
        }
    }
}

impl View for Progress {
    type V = ProgressView;

    open spec fn view(&self) -> ProgressView {
        match *self {
            Progress::Send(request, fetch) => ProgressView::Send(request@, fetch@),
            Progress::Done(members) => ProgressView::Done(members@),
            Progress::Abort(e) => ProgressView::Abort(e),
        }
    }
}

/// How a retrieval of `ids` begins. An empty list is done at once, with no
/// request. Otherwise the query for the first batch goes out, unless the
/// endpoint has no address.
pub open spec fn fetch_start(endpoint: Option<Seq<char>>, ids: Seq<u32>) -> ProgressView {
    if ids.len() == 0 {
        ProgressView::Done(Seq::empty())
    } else {
        match endpoint {
            None => ProgressView::Abort(Error::UrlError),
            Some(address) => ProgressView::Send(
                members_request(address, batches_of(ids)[0]),
                FetchView {
                    endpoint: address,
                    batches: batches_of(ids),
                    cursor: 0,
                    hop: Hop::Link,
                    members: Seq::empty(),
                },
            ),
        }
    }
}

/// How a waiting retrieval goes on after a reply. A failed reply aborts the
/// whole retrieval. A link object is followed. A payload of the success shape
/// adds its members behind those already held, and the next batch is asked
/// for, or the retrieval is done. Any other payload is an unknown response.
pub open spec fn fetch_after(fetch: FetchView, reply: Reply) -> ProgressView {
    match link_step(fetch.hop, reply) {
        LinkStep::Abort(e) => ProgressView::Abort(e),
        LinkStep::Follow(request) => ProgressView::Send(
            request@,
            FetchView { hop: Hop::Payload, ..fetch },
        ),
        LinkStep::Done(ApiResponse::Failure) => ProgressView::Abort(Error::UnknownApiResponseError),
        LinkStep::Done(ApiResponse::Success { data }) => {
            let members = fetch.members + data.members@;
            if fetch.cursor + 1 < fetch.batches.len() {
                ProgressView::Send(
                    members_request(fetch.endpoint, fetch.batches[fetch.cursor as int + 1]),
                    FetchView {
                        cursor: fetch.cursor + 1,
                        hop: Hop::Link,
                        members,
                        ..fetch
                    },
                )
            } else {
                ProgressView::Done(members)
            }
        },
    }
}

impl DriverFetch {
    #[verifier::type_invariant]
    spec fn well_formed(&self) -> bool {
        self.cursor < self.batches.len()
    }

    fn request(&self) -> (request: Request)
        requires
            self.cursor < self.batches.len(),
        ensures
            request@ == members_request(self@.endpoint, self@.batches[self@.cursor as int]),
    {
        let batch = &self.batches[self.cursor];
        assert(batch.deep_view() =~= batch@);
        Request::Members {
            url: self.endpoint.clone(),
            cust_ids: join_ids(batch),
            include_licenses: true,
        }
    }

    /// Resumes the retrieval with the reply to the request it asked for.
    pub fn resume(self, reply: Reply) -> (progress: Progress)
        ensures
            progress@ == fetch_after(self@, reply),
    {
        proof {
            use_type_invariant(&self);
        }
        match make_link_request(self.hop, reply) {
            LinkStep::Abort(e) => Progress::Abort(e),
            LinkStep::Follow(request) => {
                let next = DriverFetch {
                    endpoint: self.endpoint,
                    batches: self.batches,
                    cursor: self.cursor,
                    hop: Hop::Payload,
                    members: self.members,
                };
                Progress::Send(request, next)
            },
            LinkStep::Done(ApiResponse::Failure) => Progress::Abort(Error::UnknownApiResponseError),
            LinkStep::Done(ApiResponse::Success { data }) => {
                let mut members = self.members;
                let mut arrived = data.members;
                members.append(&mut arrived);
                if self.cursor + 1 < self.batches.len() {
                    let next = DriverFetch {
                        endpoint: self.endpoint,
                        batches: self.batches,
                        cursor: self.cursor + 1,
                        hop: Hop::Link,
                        members,
                    };
                    let request = next.request();
                    Progress::Send(request, next)
                } else {
                    Progress::Done(members)
                }
            },
        }
    }
}

impl IRacingService {
    /// Origin that the session talks to.
    pub closed spec fn origin(&self) -> Seq<char> {
        self.base_url@
    }

    /// Origin that the session talks to.
    pub fn base_url(&self) -> (origin: &str)
        ensures
            origin@ == self.origin(),
    {
        self.base_url.as_str()
    }

    /// Begins a login: derives the token and forms the request for the
    /// authentication endpoint. The password goes no further than the digest.
    /// Fails only where the endpoint has no address.
    pub fn login(password: &str, email: String) -> (started: Result<(Request, LoginAttempt), Error>)
        ensures
            match started {
                Ok((request, attempt)) => {
                    &&& login_start(
                        resolved_url(BASE_URL@, AUTH_PATH@),
                        email@,
                        credential_token(password@, email@),
                    ) == Ok::<RequestView, Error>(request@)
                    &&& attempt.origin() == BASE_URL@
                },
                Err(e) => login_start(
                    resolved_url(BASE_URL@, AUTH_PATH@),
                    email@,
                    credential_token(password@, email@),
                ) == Err::<RequestView, Error>(e),
            },
    {
        let token = build_credentials(password, email.as_str());
        LoginAttempt::begin(resolve_url(BASE_URL, AUTH_PATH), email, token)
    }

    /// Begins the retrieval of the members with the identifiers `ids` from
    /// the member data endpoint at `endpoint`, if it has an address.
    pub fn fetch_from(&self, endpoint: Option<String>, ids: &Vec<u32>) -> (progress: Progress)
        ensures
            progress@ == fetch_start(text_of(endpoint), ids@),
    {
        if ids.len() == 0 {
            return Progress::Done(Vec::new());
        }
        match endpoint {
            None => Progress::Abort(Error::UrlError),
            Some(endpoint) => {
                let batches = partition(ids);
                assert(batches.deep_view().len() == batches.len());
                let fetch = DriverFetch {
                    endpoint,
                    batches,
                    cursor: 0,
                    hop: Hop::Link,
                    members: Vec::new(),
                };
                let request = fetch.request();
                Progress::Send(request, fetch)
            },
        }
    }

    /// Begins the retrieval of the members behind a driver list, batch by
    /// batch, in the order of the list.
    pub fn get_driver_details(&self, drivers: &[CsvUser]) -> (progress: Progress)
        ensures
            progress@ == fetch_start(
                resolved_url(self.origin(), MEMBER_PATH@),
                driver_ids(drivers@),
            ),
    {
        let mut ids: Vec<u32> = Vec::new();
        let mut i: usize = 0;
        while i < drivers.len()
            invariant
                i <= drivers.len(),
                ids@ == driver_ids(drivers@.take(i as int)),
            decreases drivers.len() - i,
        {
            ids.push(drivers[i].id);
            assert(ids@ =~= driver_ids(drivers@.take(i + 1)));
            i += 1;
        }
        assert(drivers@.take(drivers.len() as int) =~= drivers@);
        self.fetch_from(resolve_url(self.base_url.as_str(), MEMBER_PATH), &ids)
    }
}

} // verus!
