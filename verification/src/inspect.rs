//! Showing one service account, or a page of them.

use vstd::prelude::*;
use vstd::string::*;

use crate::authorization::{Authorization, AuthorizationEvent, READ_PERMISSION};
use crate::contract::{
    GetServiceAccountError, GetServiceAccountRequest, GetServiceAccountResponse,
    ListServiceAccountsError, ListServiceAccountsRequest, ListServiceAccountsResponse, Nullable,
    ServiceAccountSummary, GET_OPERATION, LIST_OPERATION,
};
use crate::error::Failure;
use crate::lifecycle::ActiveServiceAccount;
use crate::management::{
    get_refusal, list_refusal, map_get_authorization, map_list_authorization, parse_page_limit,
    summarizes, summary, unsummarizable,
};
use crate::paging::{a_traversal_shows_every_account_once, cursor_of, has_more, shown_by};
use crate::rows::{text_view, AccountRow};
use crate::storage::{is_page, listable, organization_account, row_ids, TablesView};
use crate::text::{decimal_text, is_token, text_before, text_before_irreflexive, valid_token};

verus! {

/// Where the showing of an account stands. The first two states ask for outside
/// work.
pub enum Get {
    Authorize { request: GetServiceAccountRequest, authorization: Authorization },
    /// Load the account, if the organization has it.
    Load { organization_id: String, service_account_id: String },
    Done(Result<GetServiceAccountResponse, GetServiceAccountError>),
    Failed(Failure),
}

/// Outside work that was done.
pub enum GetEvent {
    Authorization(AuthorizationEvent),
    Loaded(Option<AccountRow>),
}

impl Get {
    /// The showing, given where its authorization stands.
    pub open spec fn follows_authorization(
        request: GetServiceAccountRequest,
        authorization: Authorization,
    ) -> Get {
        match authorization {
            Authorization::Granted(_) => Get::Load {
                organization_id: request.organization_id,
                service_account_id: request.service_account_id,
            },
            Authorization::Denied(error) => match get_refusal(error) {
                Ok(error) => Get::Done(Err(error)),
                Err(failure) => Get::Failed(failure),
            },
            authorization => Get::Authorize { request, authorization },
        }
    }

    fn from_authorization(request: GetServiceAccountRequest, authorization: Authorization) -> (r:
        Get)
        ensures
            r == Get::follows_authorization(request, authorization),
    {
        match authorization {
            Authorization::Granted(_) => Get::Load {
                organization_id: request.organization_id,
                service_account_id: request.service_account_id,
            },
            Authorization::Denied(error) => match map_get_authorization(error) {
                Ok(error) => Get::Done(Err(error)),
                Err(failure) => Get::Failed(failure),
            },
            authorization => Get::Authorize { request, authorization },
        }
    }

    pub open spec fn is_start(
        self,
        active: ActiveServiceAccount,
        caller: Option<String>,
        request: GetServiceAccountRequest,
    ) -> bool {
        if is_token(request.organization_id@, 256) && is_token(request.service_account_id@, 128) {
            exists|authorization: Authorization| #[trigger]
                authorization.is_start(
                    active.config,
                    caller,
                    GET_OPERATION@,
                    request.organization_id@,
                    READ_PERMISSION@,
                ) && self == Get::follows_authorization(request, authorization)
        } else {
            self == Get::Done(Err(GetServiceAccountError::InvalidRequest))
        }
    }

    pub fn start(
        active: &ActiveServiceAccount,
        caller: Option<String>,
        request: GetServiceAccountRequest,
    ) -> (r: Get)
        ensures
            r.is_start(*active, caller, request),
    {
        if !valid_token(request.organization_id.as_str(), 256) || !valid_token(
            request.service_account_id.as_str(),
            128,
        ) {
            return Get::Done(Err(GetServiceAccountError::InvalidRequest));
        }
        let authorization: Authorization = Authorization::start(
            &active.config,
            caller,
            GET_OPERATION,
            request.organization_id.as_str(),
            READ_PERMISSION,
        );
        Get::from_authorization(request, authorization)
    }

    /// `next` is where the showing goes on after `event`.
    pub open spec fn steps_to(self, event: GetEvent, next: Get) -> bool {
        match (self, event) {
            (Get::Authorize { request, authorization }, GetEvent::Authorization(event)) => {
                exists|pending: Authorization| #[trigger]
                    authorization.steps_to(event, pending) && next == Get::follows_authorization(
                        request,
                        pending,
                    )
            },
            (Get::Load { organization_id, service_account_id }, GetEvent::Loaded(loaded)) => {
                match loaded {
                    Some(row) => match next {
                        Get::Done(Ok(response)) => summarizes(response.account, row@),
                        Get::Failed(Failure::Plugin(error)) => unsummarizable(error, row@),
                        _ => false,
                    },
                    None => next == Get::Done(Err(GetServiceAccountError::NotFound)),
                }
            },
            _ => next == Get::Failed(Failure::UnexpectedReply),
        }
    }

    /// Goes on after `event`.
    pub fn resume(self, event: GetEvent) -> (next: Get)
        ensures
            self.steps_to(event, next),
    {
        match (self, event) {
            (Get::Authorize { request, authorization }, GetEvent::Authorization(event)) => {
                Get::from_authorization(request, authorization.resume(event))
            },
            (Get::Load { organization_id: _, service_account_id: _ }, GetEvent::Loaded(loaded)) => {
                match loaded {
                    Some(row) => match summary(&row) {
                        Ok(account) => Get::Done(Ok(GetServiceAccountResponse { account })),
                        Err(error) => Get::Failed(Failure::Plugin(error)),
                    },
                    None => Get::Done(Err(GetServiceAccountError::NotFound)),
                }
            },
            _ => Get::Failed(Failure::UnexpectedReply),
        }
    }
}

/// Where the showing of a page stands. The first two states ask for outside
/// work.
pub enum List {
    Authorize { request: ListServiceAccountsRequest, limit: u32, authorization: Authorization },
    /// Load the first `row_limit` accounts of the organization after `after`.
    /// That is one more than the page holds.
    Load { organization_id: String, after: Option<String>, limit: u32, row_limit: u64 },
    Done(Result<ListServiceAccountsResponse, ListServiceAccountsError>),
    Failed(Failure),
}

/// Outside work that was done.
pub enum ListEvent {
    Authorization(AuthorizationEvent),
    Loaded(Vec<AccountRow>),
}

/// `limit` is the page size that the request asks for, and the request is well
/// formed.
pub open spec fn is_page_request(
    request: ListServiceAccountsRequest,
    max_page_size: u32,
    limit: u32,
) -> bool {
    &&& 1 <= limit <= max_page_size
    &&& decimal_text(limit as int) == request.limit@
    &&& is_token(request.organization_id@, 256)
    &&& request.after.0 matches Some(cursor) ==> is_token(cursor@, 128)
}

/// The rows that are shown: at most `limit`.
pub open spec fn shown_rows(rows: Seq<AccountRow>, limit: u32) -> Seq<AccountRow> {
    if rows.len() > limit {
        rows.take(limit as int)
    } else {
        rows
    }
}

/// `response` shows the first `limit` rows, and names the last of them where
/// there are more.
pub open spec fn shows_page(
    response: ListServiceAccountsResponse,
    rows: Seq<AccountRow>,
    limit: u32,
) -> bool {
    let shown = shown_rows(rows, limit);
    &&& response.accounts@.len() == shown.len()
    &&& forall|i: int|
        0 <= i < shown.len() ==> summarizes(#[trigger] response.accounts@[i], shown[i]@)
    &&& if rows.len() > limit && limit > 0 {
        &&& response.next_cursor.0 matches Some(cursor)
        &&& cursor == shown.last().service_account_id
    } else {
        response.next_cursor.0 is None
    }
}

fn summaries(rows: &Vec<AccountRow>, limit: u32) -> (r: Result<
    Vec<ServiceAccountSummary>,
    crate::error::ServiceAccountPluginError,
>)
    ensures
        ({
            let shown = shown_rows(rows@, limit);
            match r {
                Ok(accounts) => {
                    &&& accounts@.len() == shown.len()
                    &&& forall|i: int|
                        0 <= i < shown.len() ==> summarizes(#[trigger] accounts@[i], shown[i]@)
                },
                Err(error) => exists|i: int|
                    0 <= i < shown.len() && unsummarizable(error, (#[trigger] shown[i])@),
            }
        }),
{
    let mut accounts: Vec<ServiceAccountSummary> = Vec::new();
    let ghost shown = shown_rows(rows@, limit);
    let mut i: usize = 0;
    while i < rows.len() && i < limit as usize
        invariant
            i <= shown.len(),
            shown == shown_rows(rows@, limit),
            accounts@.len() == i,
            forall|k: int| 0 <= k < i ==> summarizes(#[trigger] accounts@[k], shown[k]@),
        decreases rows@.len() - i,
    {
        assert(shown[i as int] == rows@[i as int]);
        match summary(&rows[i]) {
            Ok(account) => {
                accounts.push(account);
            },
            Err(error) => {
                return Err(error);
            },
        }
        i += 1;
    }
    Ok(accounts)
}

impl List {
    /// The showing, given where its authorization stands.
    pub open spec fn follows_authorization(
        request: ListServiceAccountsRequest,
        limit: u32,
        authorization: Authorization,
    ) -> List {
        match authorization {
            Authorization::Granted(_) => List::Load {
                organization_id: request.organization_id,
                after: request.after.0,
                limit,
                row_limit: (limit + 1) as u64,
            },
            Authorization::Denied(error) => match list_refusal(error) {
                Ok(error) => List::Done(Err(error)),
                Err(failure) => List::Failed(failure),
            },
            authorization => List::Authorize { request, limit, authorization },
        }
    }

    fn from_authorization(
        request: ListServiceAccountsRequest,
        limit: u32,
        authorization: Authorization,
    ) -> (r: List)
        ensures
            r == List::follows_authorization(request, limit, authorization),
    {
        match authorization {
            Authorization::Granted(_) => List::Load {
                organization_id: request.organization_id,
                after: request.after.0,
                limit,
                row_limit: limit as u64 + 1,
            },
            Authorization::Denied(error) => match map_list_authorization(error) {
                Ok(error) => List::Done(Err(error)),
                Err(failure) => List::Failed(failure),
            },
            authorization => List::Authorize { request, limit, authorization },
        }
    }

    pub open spec fn is_start(
        self,
        active: ActiveServiceAccount,
        caller: Option<String>,
        request: ListServiceAccountsRequest,
    ) -> bool {
        let max = active.config.max_page_size;
        if exists|limit: u32| is_page_request(request, max, limit) {
            exists|limit: u32, authorization: Authorization|
                {
                    &&& #[trigger] is_page_request(request, max, limit)
                    &&& #[trigger] authorization.is_start(
                        active.config,
                        caller,
                        LIST_OPERATION@,
                        request.organization_id@,
                        READ_PERMISSION@,
                    )
                    &&& self == List::follows_authorization(request, limit, authorization)
                }
        } else {
            self == List::Done(Err(ListServiceAccountsError::InvalidRequest))
        }
    }

    pub fn start(
        active: &ActiveServiceAccount,
        caller: Option<String>,
        request: ListServiceAccountsRequest,
    ) -> (r: List)
        ensures
            r.is_start(*active, caller, request),
    {
        let limit: u32 = match parse_page_limit(
            request.limit.as_str(),
            active.config.max_page_size,
        ) {
            Some(limit) => limit,
            None => {
                assert forall|limit: u32| !is_page_request(
                    request,
                    active.config.max_page_size,
                    limit,
                ) by {
                    assert(decimal_text(limit as int) == decimal_text(limit as int));
                }
                return List::Done(Err(ListServiceAccountsError::InvalidRequest));
            },
        };
        let cursor_holds = match &request.after.0 {
            Some(cursor) => valid_token(cursor.as_str(), 128),
            None => true,
        };
        if !valid_token(request.organization_id.as_str(), 256) || !cursor_holds {
            return List::Done(Err(ListServiceAccountsError::InvalidRequest));
        }
        assert(is_page_request(request, active.config.max_page_size, limit));
        let authorization: Authorization = Authorization::start(
            &active.config,
            caller,
            LIST_OPERATION,
            request.organization_id.as_str(),
            READ_PERMISSION,
        );
        List::from_authorization(request, limit, authorization)
    }

    /// `next` is where the showing goes on after `event`.
    pub open spec fn steps_to(self, event: ListEvent, next: List) -> bool {
        match (self, event) {
            (
                List::Authorize { request, limit, authorization },
                ListEvent::Authorization(event),
            ) => exists|pending: Authorization| #[trigger]
                authorization.steps_to(event, pending) && next == List::follows_authorization(
                    request,
                    limit,
                    pending,
                ),
            (
                List::Load { organization_id, after, limit, row_limit },
                ListEvent::Loaded(rows),
            ) => match next {
                List::Done(Ok(response)) => shows_page(response, rows@, limit),
                List::Failed(Failure::Plugin(error)) => exists|i: int|
                    0 <= i < shown_rows(rows@, limit).len() && unsummarizable(
                        error,
                        (#[trigger] shown_rows(rows@, limit)[i])@,
                    ),
                _ => false,
            },
            _ => next == List::Failed(Failure::UnexpectedReply),
        }
    }

    /// Goes on after `event`.
    pub fn resume(self, event: ListEvent) -> (next: List)
        ensures
            self.steps_to(event, next),
    {
        match (self, event) {
            (
                List::Authorize { request, limit, authorization },
                ListEvent::Authorization(event),
            ) => List::from_authorization(request, limit, authorization.resume(event)),
            (
                List::Load { organization_id: _, after: _, limit, row_limit: _ },
                ListEvent::Loaded(rows),
            ) => match summaries(&rows, limit) {
                Ok(accounts) => {
                    let next_cursor: Option<String> = if rows.len() > limit as usize && limit > 0 {
                        assert(shown_rows(rows@, limit).last() == rows@[limit - 1]);
                        Some(rows[limit as usize - 1].service_account_id.clone())
                    } else {
                        None
                    };
                    List::Done(
                        Ok(
                            ListServiceAccountsResponse {
                                accounts,
                                next_cursor: Nullable(next_cursor),
                            },
                        ),
                    )
                },
                Err(error) => List::Failed(Failure::Plugin(error)),
            },
            _ => List::Failed(Failure::UnexpectedReply),
        }
    }
}

pub open spec fn summary_ids(accounts: Seq<ServiceAccountSummary>) -> Seq<Seq<char>> {
    Seq::new(accounts.len(), |i: int| accounts[i].service_account_id@)
}

/// A listing shows exactly the first `limit` accounts of the organization that
/// follow the cursor, and names a next cursor, the last account shown, exactly
/// where more accounts follow.
pub proof fn a_listing_shows_one_page(
    t: TablesView,
    organization_id: String,
    after: Option<String>,
    limit: u32,
    row_limit: u64,
    rows: Vec<AccountRow>,
    response: ListServiceAccountsResponse,
)
    requires
        limit > 0,
        row_limit == limit + 1,
        is_page(t, organization_id@, text_view(after), row_limit as nat, row_ids(rows@)),
        (List::Load { organization_id, after, limit, row_limit }).steps_to(
            ListEvent::Loaded(rows),
            List::Done(Ok(response)),
        ),
    ensures
        ({
            let from = text_view(after);
            let ids = summary_ids(response.accounts@);
            &&& is_page(t, organization_id@, from, limit as nat, ids)
            &&& response.next_cursor.0 is Some <==> has_more(t, organization_id@, from, ids)
            &&& response.next_cursor.0 matches Some(cursor) ==> cursor@ == ids.last()
        }),
{
    let from = text_view(after);
    let all = row_ids(rows@);
    let ids = summary_ids(response.accounts@);
    let shown = shown_rows(rows@, limit);
    assert(ids =~= all.take(ids.len() as int)) by {
        assert forall|i: int| 0 <= i < ids.len() implies ids[i] == all[i] by {
            assert(summarizes(response.accounts@[i], shown[i]@));
        }
    }
    assert forall|i: int| 0 <= i < ids.len() implies listable(
        t,
        organization_id@,
        from,
        #[trigger] ids[i],
    ) by {
        assert(ids[i] == all[i]);
    }
    assert forall|i: int, j: int| 0 <= i < j < ids.len() implies text_before(
        #[trigger] ids[i],
        #[trigger] ids[j],
    ) by {
        assert(ids[i] == all[i] && ids[j] == all[j]);
    }
    assert forall|id: Seq<char>| #[trigger]
        listable(t, organization_id@, from, id) && !ids.contains(id) implies {
        &&& ids.len() == limit
        &&& forall|i: int| 0 <= i < ids.len() ==> text_before(#[trigger] ids[i], id)
    } by {
        if all.contains(id) {
            let k = all.index_of(id);
            if k < ids.len() {
                assert(ids[k] == id);
            }
            assert forall|i: int| 0 <= i < ids.len() implies text_before(#[trigger] ids[i], id) by {
                assert(ids[i] == all[i] && all[k] == id);
            }
        } else {
            assert forall|i: int| 0 <= i < ids.len() implies text_before(#[trigger] ids[i], id) by {
                assert(ids[i] == all[i]);
            }
        }
    }
    if rows@.len() > limit {
        let extra = all[limit as int];
        assert(listable(t, organization_id@, from, extra));
        if ids.contains(extra) {
            let k = ids.index_of(extra);
            assert(text_before(all[k], all[limit as int]));
            text_before_irreflexive(extra);
        }
        assert(ids.last() == all[limit - 1]);
        assert(shown.last() == rows@[limit - 1]);
    } else {
        assert(ids =~= all);
    }
}

/// The cursor that answer `k` is asked for with: none for the first, and what the
/// answer before names for every other.
pub open spec fn asked_after(responses: Seq<ListServiceAccountsResponse>, k: int) -> Option<String> {
    if k == 0 {
        None
    } else {
        responses[k - 1].next_cursor.0
    }
}

/// `responses` answer a listing that is followed from cursor to cursor until no
/// more is named, each from the `rows` that were loaded for it.
pub open spec fn is_full_listing(
    t: TablesView,
    organization_id: String,
    limit: u32,
    rows: Seq<Vec<AccountRow>>,
    responses: Seq<ListServiceAccountsResponse>,
) -> bool {
    &&& responses.len() > 0
    &&& rows.len() == responses.len()
    &&& forall|k: int|
        0 <= k < responses.len() ==> {
            let after = asked_after(responses, k);
            let row_limit = (limit + 1) as u64;
            &&& is_page(
                t,
                organization_id@,
                text_view(after),
                row_limit as nat,
                row_ids(rows[k]@),
            )
            &&& (List::Load { organization_id, after, limit, row_limit }).steps_to(
                ListEvent::Loaded(rows[k]),
                List::Done(Ok(#[trigger] responses[k])),
            )
            &&& responses[k].next_cursor.0 is Some == (k < responses.len() - 1)
        }
}

/// The accounts that each answer shows.
pub open spec fn listed_pages(responses: Seq<ListServiceAccountsResponse>) -> Seq<Seq<Seq<char>>> {
    Seq::new(responses.len(), |k: int| summary_ids(responses[k].accounts@))
}

/// Following the cursors from the first page to the last shows every account of
/// the organization once, and in order.
pub proof fn a_full_listing_shows_every_account_once(
    t: TablesView,
    organization_id: String,
    limit: u32,
    rows: Seq<Vec<AccountRow>>,
    responses: Seq<ListServiceAccountsResponse>,
)
    requires
        limit > 0,
        is_full_listing(t, organization_id, limit, rows, responses),
    ensures
        ({
            let shown = shown_by(listed_pages(responses));
            &&& forall|id: Seq<char>| #[trigger]
                shown.contains(id) == organization_account(t, organization_id@, id)
            &&& shown.no_duplicates()
            &&& forall|i: int, j: int|
                0 <= i < j < shown.len() ==> text_before(#[trigger] shown[i], #[trigger] shown[j])
        }),
{
    let pages = listed_pages(responses);
    assert forall|k: int| 0 <= k < pages.len() implies {
        &&& is_page(t, organization_id@, cursor_of(pages, k), limit as nat, #[trigger] pages[k])
        &&& has_more(t, organization_id@, cursor_of(pages, k), pages[k]) == (k < pages.len() - 1)
    } by {
        let after = asked_after(responses, k);
        let row_limit = (limit + 1) as u64;
        assert(responses[k].next_cursor.0 is Some == (k < responses.len() - 1));
        a_listing_shows_one_page(
            t,
            organization_id,
            after,
            limit,
            row_limit,
            rows[k],
            responses[k],
        );
        if k > 0 {
            assert(responses[k - 1].next_cursor.0 is Some == (k - 1 < responses.len() - 1));
            a_listing_shows_one_page(
                t,
                organization_id,
                asked_after(responses, k - 1),
                limit,
                row_limit,
                rows[k - 1],
                responses[k - 1],
            );
            assert(pages[k - 1] == summary_ids(responses[k - 1].accounts@));
        }
        assert(cursor_of(pages, k) == text_view(after));
    }
    a_traversal_shows_every_account_once(t, organization_id@, limit as nat, pages);
}

} // verus!
