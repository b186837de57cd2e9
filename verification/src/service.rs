//! The registry of the service: connections, the sessions on each connection
//! and the queries of each session, all addressed by reusable handles.
//!
//! The registry is an ordinary value. Whoever shares it between tasks puts
//! it behind one lock and calls one method at a time; no method waits. What
//! has to outlive such a call, a client for the remote call or a query to
//! read from, is handed out as a value of its own.

use crate::channel::{lock_around, share};
use crate::error::ServiceError;
use crate::item::QueryResultChunkResult;
use crate::query::LoperServiceQuery;
use crate::slots::{
    compact, first_free, freed, is_lowest_free, law_alloc_fills_one_slot,
    law_alloc_then_free_restores, law_free_empties_one_slot, law_next_handle_after_free,
    law_table_shrinks_from_the_end, lemma_first_free_is_lowest, lemma_map_slots, map_slots,
    occupied_count, slot_at, stored, SlotId, SlotTable,
};
use crate::transport::{client_over, clone_channel, clone_client};
use std::sync::Arc;
use tokio::sync::mpsc::Sender;
use tokio::sync::Mutex;
use tonic::client::Grpc;
use tonic::transport::Channel;
use vstd::prelude::*;

verus! {

/// A query as the registry holds it: shared with the reads that are under
/// way, behind the lock that lets one of them in at a time.
pub type SharedQuery = Arc<Mutex<LoperServiceQuery>>;

/// What starting a query hands to the caller: a client of its own for the
/// remote call, the handle of the query, and the sending half of the query's
/// result channel, which goes to the relay.
pub type QueryStart = (Grpc<Channel>, SlotId, Sender<QueryResultChunkResult>);

/// A session: the RPC client bound to the connection's transport, and the
/// queries that run in the session.
struct LoperServiceSession {
    raw_client: Grpc<Channel>,
    queries: SlotTable<SharedQuery>,
}

/// A connection: the transport channel to the remote service, and the
/// sessions opened on it.
struct LoperServiceConnection {
    channel: Channel,
    sessions: SlotTable<LoperServiceSession>,
}

/// The registry of open connections.
pub struct LoperService {
    connections: SlotTable<LoperServiceConnection>,
}

/// The model of a session.
pub struct SessionView {
    /// The session's RPC client.
    pub client: Grpc<Channel>,
    /// The session's queries, by handle.
    pub queries: Seq<Option<SharedQuery>>,
}

/// The model of a connection.
pub struct ConnectionView {
    /// The connection's transport channel.
    pub channel: Channel,
    /// The connection's sessions, by handle.
    pub sessions: Seq<Option<SessionView>>,
}

/// The model of the registry: its connections, by handle.
pub type ServiceView = Seq<Option<ConnectionView>>;

/// The connection under the handle `ci`, or the error of resolving it.
pub open spec fn resolve_connection(service: ServiceView, ci: SlotId) -> Result<
    ConnectionView,
    ServiceError,
> {
    match slot_at(service, ci as int) {
        Some(connection) => Ok(connection),
        None => Err(ServiceError::UnknownConnection(ci)),
    }
}

/// The session under the handle `si` of `connection`, or the error of
/// resolving it.
pub open spec fn session_of(connection: ConnectionView, si: SlotId) -> Result<
    SessionView,
    ServiceError,
> {
    match slot_at(connection.sessions, si as int) {
        Some(session) => Ok(session),
        None => Err(ServiceError::UnknownSession(si)),
    }
}

/// The query under the handle `qi` of `session`, or the error of resolving
/// it.
pub open spec fn query_of(session: SessionView, qi: SlotId) -> Result<SharedQuery, ServiceError> {
    match slot_at(session.queries, qi as int) {
        Some(query) => Ok(query),
        None => Err(ServiceError::UnknownQuery(qi)),
    }
}

/// The session under the handles `ci` and `si`, or the error of resolving
/// it: that of the first handle that stands for nothing.
pub open spec fn resolve_session(service: ServiceView, ci: SlotId, si: SlotId) -> Result<
    SessionView,
    ServiceError,
> {
    match resolve_connection(service, ci) {
        Ok(connection) => session_of(connection, si),
        Err(error) => Err(error),
    }
}

/// The query under the handles `ci`, `si` and `qi`, or the error of
/// resolving it: that of the first handle that stands for nothing.
pub open spec fn resolve_query(service: ServiceView, ci: SlotId, si: SlotId, qi: SlotId) -> Result<
    SharedQuery,
    ServiceError,
> {
    match resolve_session(service, ci, si) {
        Ok(session) => query_of(session, qi),
        Err(error) => Err(error),
    }
}

/// The connection that has `sessions` for its sessions and is `connection`
/// in all else.
pub open spec fn connection_with(
    connection: ConnectionView,
    sessions: Seq<Option<SessionView>>,
) -> ConnectionView {
    ConnectionView { channel: connection.channel, sessions }
}

/// The session that has `queries` for its queries and is `session` in all
/// else.
pub open spec fn session_with(
    session: SessionView,
    queries: Seq<Option<SharedQuery>>,
) -> SessionView {
    SessionView { client: session.client, queries }
}

/// The registry in which the connection `ci` has `sessions` for its
/// sessions and nothing else differs.
pub open spec fn with_sessions(
    service: ServiceView,
    ci: SlotId,
    sessions: Seq<Option<SessionView>>,
) -> ServiceView {
    match resolve_connection(service, ci) {
        Ok(connection) => service.update(ci as int, Some(connection_with(connection, sessions))),
        Err(_) => service,
    }
}

/// The registry in which the session `si` of the connection `ci` has
/// `queries` for its queries and nothing else differs.
pub open spec fn with_queries(
    service: ServiceView,
    ci: SlotId,
    si: SlotId,
    queries: Seq<Option<SharedQuery>>,
) -> ServiceView {
    match resolve_session(service, ci, si) {
        Ok(session) => with_sessions(
            service,
            ci,
            slot_at(service, ci as int)->0.sessions.update(
                si as int,
                Some(session_with(session, queries)),
            ),
        ),
        Err(_) => service,
    }
}

/// The registry after `query` was started in the session `si` of the
/// connection `ci`: the query stands under the session's next handle.
pub open spec fn with_query_started(
    service: ServiceView,
    ci: SlotId,
    si: SlotId,
    query: SharedQuery,
) -> ServiceView {
    match resolve_session(service, ci, si) {
        Ok(session) => with_queries(
            service,
            ci,
            si,
            stored(session.queries, first_free(session.queries), Some(query)),
        ),
        Err(_) => service,
    }
}

/// The registry after the query handle `qi` of the session `si` of the
/// connection `ci` was freed.
pub open spec fn with_query_freed(
    service: ServiceView,
    ci: SlotId,
    si: SlotId,
    qi: int,
) -> ServiceView {
    match resolve_session(service, ci, si) {
        Ok(session) => with_queries(service, ci, si, freed(session.queries, qi)),
        Err(_) => service,
    }
}

/// No table of the connection holds a trailing empty slot.
pub open spec fn connection_well_formed(connection: ConnectionView) -> bool {
    &&& compact(connection.sessions)
    &&& forall|si: int|
        0 <= si < connection.sessions.len() ==> ((#[trigger] connection.sessions[si]) matches Some(
            session,
        ) ==> compact(session.queries))
}

/// No table of the registry holds a trailing empty slot. The registry made
/// by `new` is so, and every method keeps it so.
pub open spec fn well_formed(service: ServiceView) -> bool {
    &&& compact(service)
    &&& forall|ci: int|
        0 <= ci < service.len() ==> ((#[trigger] service[ci]) matches Some(connection)
            ==> connection_well_formed(connection))
}

/// The function from a session to its model.
spec fn session_model() -> spec_fn(LoperServiceSession) -> SessionView {
    |session: LoperServiceSession| session@
}

/// The function from a connection to its model.
spec fn connection_model() -> spec_fn(LoperServiceConnection) -> ConnectionView {
    |connection: LoperServiceConnection| connection@
}

impl LoperServiceSession {
    /// The model of the session.
    closed spec fn view(&self) -> SessionView {
        SessionView { client: self.raw_client, queries: self.queries@ }
    }

    /// Makes a query with a fresh result channel and stores it under the
    /// session's lowest free query handle.
    fn begin_query(&mut self) -> (start: QueryStart)
        ensures
            start.1 == first_free(old(self)@.queries),
            is_lowest_free(old(self)@.queries, start.1 as int),
            query_of(final(self)@, start.1) matches Ok(query) && final(self)@ == session_with(
                old(self)@,
                stored(old(self)@.queries, start.1 as int, Some(query)),
            ),
    {
        let client = clone_client(&self.raw_client);
        let (query, sender) = LoperServiceQuery::create();
        let qi = self.queries.allocate(Arc::new(lock_around(query)));
        (client, qi, sender)
    }

    /// Frees the query handle `qi`.
    fn free_query(&mut self, qi: SlotId)
        ensures
            final(self)@ == session_with(old(self)@, freed(old(self)@.queries, qi as int)),
    {
        self.queries.free(qi);
    }

    /// The query under the handle `qi`, shared with the session.
    fn query(&self, qi: SlotId) -> (r: Result<SharedQuery, ServiceError>)
        ensures
            r == query_of(self@, qi),
    {
        match self.queries.resolve(qi) {
            Some(query) => Ok(share(query)),
            None => Err(ServiceError::UnknownQuery(qi)),
        }
    }
}

impl LoperServiceConnection {
    /// The model of the connection.
    closed spec fn view(&self) -> ConnectionView {
        ConnectionView {
            channel: self.channel,
            sessions: map_slots(self.sessions@, session_model()),
        }
    }

    /// Opens a session without queries, with a client of its own over the
    /// connection's transport, under the lowest free session handle.
    fn create_session(&mut self) -> (si: SlotId)
        ensures
            si == first_free(old(self)@.sessions),
            is_lowest_free(old(self)@.sessions, si as int),
            session_of(final(self)@, si) matches Ok(session) && session.queries.len() == 0
                && final(self)@ == connection_with(
                old(self)@,
                stored(old(self)@.sessions, si as int, Some(session)),
            ),
    {
        let session = LoperServiceSession {
            raw_client: client_over(clone_channel(&self.channel)),
            queries: SlotTable::new(),
        };
        proof {
            lemma_map_slots(self.sessions@, session_model());
        }
        self.sessions.allocate(session)
    }

    /// Closes the session `si` together with its queries, and frees the
    /// handle.
    fn close_session(&mut self, si: SlotId) -> (r: Result<(), ServiceError>)
        ensures
            match r {
                Ok(()) => session_of(old(self)@, si) is Ok && final(self)@ == connection_with(
                    old(self)@,
                    freed(old(self)@.sessions, si as int),
                ),
                Err(error) => session_of(old(self)@, si) == Err::<SessionView, _>(error)
                    && final(self)@ == old(self)@,
            },
    {
        proof {
            lemma_map_slots(self.sessions@, session_model());
        }
        if self.sessions.contains(si) {
            self.sessions.free(si);
            Ok(())
        } else {
            Err(ServiceError::UnknownSession(si))
        }
    }

    /// The session under the handle `si`.
    fn session(&self, si: SlotId) -> (r: Result<&LoperServiceSession, ServiceError>)
        ensures
            match r {
                Ok(session) => session_of(self@, si) == Ok::<_, ServiceError>(session@),
                Err(error) => session_of(self@, si) == Err::<SessionView, _>(error),
            },
    {
        match self.sessions.resolve(si) {
            Some(session) => Ok(session),
            None => Err(ServiceError::UnknownSession(si)),
        }
    }

    /// The session under the handle `si`, to be changed in place. Nothing
    /// else of the connection changes.
    fn session_mut(&mut self, si: SlotId) -> (r: Result<&mut LoperServiceSession, ServiceError>)
        ensures
            match r {
                Ok(session) => {
                    &&& session_of(old(self)@, si) == Ok::<_, ServiceError>(session@)
                    &&& final(self)@ == connection_with(
                        old(self)@,
                        old(self)@.sessions.update(si as int, Some(final(session)@)),
                    )
                },
                Err(error) => session_of(old(self)@, si) == Err::<SessionView, _>(error)
                    && final(self)@ == old(self)@,
            },
    {
        proof {
            assert forall|changed: LoperServiceSession|
                si < self.sessions@.len() implies #[trigger] map_slots(
                    self.sessions@.update(si as int, Some(changed)),
                    session_model(),
                ) =~= self@.sessions.update(si as int, Some(changed@)) by {}
        }
        match self.sessions.resolve_mut(si) {
            Some(session) => Ok(session),
            None => Err(ServiceError::UnknownSession(si)),
        }
    }
}

impl Default for LoperService {
    /// The registry without connections.
    fn default() -> (service: Self)
        ensures
            service@ == Seq::<Option<ConnectionView>>::empty(),
            well_formed(service@),
    {
        LoperService::new()
    }
}

impl LoperService {
    /// The model of the registry.
    pub closed spec fn view(&self) -> ServiceView {
        map_slots(self.connections@, connection_model())
    }

    /// The registry without connections.
    pub fn new() -> (service: Self)
        ensures
            service@ == Seq::<Option<ConnectionView>>::empty(),
            well_formed(service@),
    {
        LoperService { connections: SlotTable::new() }
    }

    /// The connection under the handle `ci`.
    fn connection(&self, ci: SlotId) -> (r: Result<&LoperServiceConnection, ServiceError>)
        ensures
            match r {
                Ok(connection) => resolve_connection(self@, ci) == Ok::<_, ServiceError>(
                    connection@,
                ),
                Err(error) => resolve_connection(self@, ci) == Err::<ConnectionView, _>(error),
            },
    {
        match self.connections.resolve(ci) {
            Some(connection) => Ok(connection),
            None => Err(ServiceError::UnknownConnection(ci)),
        }
    }

    /// The connection under the handle `ci`, to be changed in place. Nothing
    /// else of the registry changes.
    fn connection_mut(&mut self, ci: SlotId) -> (r: Result<
        &mut LoperServiceConnection,
        ServiceError,
    >)
        ensures
            match r {
                Ok(connection) => {
                    &&& resolve_connection(old(self)@, ci) == Ok::<_, ServiceError>(connection@)
                    &&& final(self)@ == old(self)@.update(ci as int, Some(final(connection)@))
                },
                Err(error) => resolve_connection(old(self)@, ci) == Err::<ConnectionView, _>(error)
                    && final(self)@ == old(self)@,
            },
    {
        match self.connections.resolve_mut(ci) {
            Some(connection) => Ok(connection),
            None => Err(ServiceError::UnknownConnection(ci)),
        }
    }

    /// Registers the open transport `channel` as a connection without
    /// sessions and returns its handle: the lowest one that is free.
    pub fn open_connection(&mut self, channel: Channel) -> (ci: SlotId)
        ensures
            ci == first_free(old(self)@),
            is_lowest_free(old(self)@, ci as int),
            final(self)@ == stored(
                old(self)@,
                ci as int,
                Some(ConnectionView { channel, sessions: Seq::empty() }),
            ),
            well_formed(old(self)@) ==> well_formed(final(self)@),
    {
        let connection = LoperServiceConnection { channel, sessions: SlotTable::new() };
        proof {
            lemma_map_slots(self.connections@, connection_model());
            assert(connection@.sessions =~= Seq::empty());
        }
        self.connections.allocate(connection)
    }

    /// Closes the connection `ci` together with its sessions and their
    /// queries, and frees the handle.
    pub fn close_connection(&mut self, ci: SlotId) -> (r: Result<(), ServiceError>)
        ensures
            match r {
                Ok(()) => resolve_connection(old(self)@, ci) is Ok && final(self)@ == freed(
                    old(self)@,
                    ci as int,
                ),
                Err(error) => resolve_connection(old(self)@, ci) == Err::<ConnectionView, _>(error)
                    && final(self)@ == old(self)@,
            },
            well_formed(old(self)@) ==> well_formed(final(self)@),
    {
        proof {
            lemma_map_slots(self.connections@, connection_model());
            lemma_well_formed_freed(self@, ci as int);
        }
        if self.connections.contains(ci) {
            self.connections.free(ci);
            Ok(())
        } else {
            Err(ServiceError::UnknownConnection(ci))
        }
    }

    /// Opens a session on the connection `ci`, with a client of its own over
    /// the connection's transport and without queries, and returns its
    /// handle: the lowest one that is free on that connection.
    pub fn create_session(&mut self, ci: SlotId) -> (r: Result<SlotId, ServiceError>)
        ensures
            match r {
                Ok(si) => {
                    &&& resolve_connection(old(self)@, ci) matches Ok(connection)
                    &&& si == first_free(connection.sessions)
                    &&& is_lowest_free(connection.sessions, si as int)
                    &&& resolve_session(final(self)@, ci, si) matches Ok(session)
                    &&& session.queries == Seq::<Option<SharedQuery>>::empty()
                    &&& final(self)@ == with_sessions(
                        old(self)@,
                        ci,
                        stored(connection.sessions, si as int, Some(session)),
                    )
                },
                Err(error) => resolve_connection(old(self)@, ci) == Err::<ConnectionView, _>(error)
                    && final(self)@ == old(self)@,
            },
            well_formed(old(self)@) ==> well_formed(final(self)@),
    {
        match self.connection_mut(ci) {
            Ok(connection) => Ok(connection.create_session()),
            Err(error) => Err(error),
        }
    }

    /// Closes the session `si` of the connection `ci` together with its
    /// queries, and frees the handle.
    pub fn close_session(&mut self, ci: SlotId, si: SlotId) -> (r: Result<(), ServiceError>)
        ensures
            match r {
                Ok(()) => {
                    &&& resolve_session(old(self)@, ci, si) is Ok
                    &&& final(self)@ == with_sessions(
                        old(self)@,
                        ci,
                        freed(slot_at(old(self)@, ci as int)->0.sessions, si as int),
                    )
                },
                Err(error) => resolve_session(old(self)@, ci, si) == Err::<SessionView, _>(error)
                    && final(self)@ == old(self)@,
            },
            well_formed(old(self)@) ==> well_formed(final(self)@),
    {
        match self.connection_mut(ci) {
            Ok(connection) => {
                let ghost before = connection@;
                let r = connection.close_session(si);
                proof {
                    lemma_connection_well_formed_freed(before, si as int);
                }
                r
            },
            Err(error) => Err(error),
        }
    }

    /// Starts a query in the session `si` of the connection `ci`: makes the
    /// query with a fresh result channel, stores it under the session's
    /// lowest free query handle, and returns a clone of the session's client,
    /// that handle and the channel's sending half.
    pub fn begin_query(&mut self, ci: SlotId, si: SlotId) -> (r: Result<QueryStart, ServiceError>)
        ensures
            match r {
                Ok(start) => {
                    &&& resolve_session(old(self)@, ci, si) matches Ok(session)
                    &&& start.1 == first_free(session.queries)
                    &&& is_lowest_free(session.queries, start.1 as int)
                    &&& resolve_query(final(self)@, ci, si, start.1) matches Ok(query)
                    &&& final(self)@ == with_query_started(old(self)@, ci, si, query)
                },
                Err(error) => resolve_session(old(self)@, ci, si) == Err::<SessionView, _>(error)
                    && final(self)@ == old(self)@,
            },
            well_formed(old(self)@) ==> well_formed(final(self)@),
    {
        match self.connection_mut(ci) {
            Ok(connection) => match connection.session_mut(si) {
                Ok(session) => Ok(session.begin_query()),
                Err(error) => Err(error),
            },
            Err(error) => Err(error),
        }
    }

    /// Takes back a query whose remote call failed to start: frees the query
    /// handle `qi` of the session `si` of the connection `ci`. Where the
    /// session is gone, nothing is left to free and nothing changes.
    pub fn abort_query(&mut self, ci: SlotId, si: SlotId, qi: SlotId)
        ensures
            final(self)@ == with_query_freed(old(self)@, ci, si, qi as int),
            well_formed(old(self)@) ==> well_formed(final(self)@),
    {
        match self.connection_mut(ci) {
            Ok(connection) => match connection.session_mut(si) {
                Ok(session) => {
                    proof {
                        law_table_shrinks_from_the_end(session@.queries, qi as int);
                    }
                    session.free_query(qi);
                },
                Err(_) => {},
            },
            Err(_) => {},
        }
    }

    /// The query under the handles `ci`, `si` and `qi`, shared with the
    /// registry so that it can be read after the registry is let go.
    pub fn query(&self, ci: SlotId, si: SlotId, qi: SlotId) -> (r: Result<
        SharedQuery,
        ServiceError,
    >)
        ensures
            r == resolve_query(self@, ci, si, qi),
    {
        match self.connection(ci) {
            Ok(connection) => match connection.session(si) {
                Ok(session) => session.query(qi),
                Err(error) => Err(error),
            },
            Err(error) => Err(error),
        }
    }

    /// Closes the result stream of the query `qi` of the session `si` of the
    /// connection `ci`: frees the handle and lets go of the registry's share
    /// of the query. Once no read holds the query any more, its receiving
    /// half is dropped, which the relay takes as its order to stop.
    pub fn close_query_result_stream(&mut self, ci: SlotId, si: SlotId, qi: SlotId) -> (r: Result<
        (),
        ServiceError,
    >)
        ensures
            match r {
                Ok(()) => resolve_query(old(self)@, ci, si, qi) is Ok && final(self)@
                    == with_query_freed(old(self)@, ci, si, qi as int),
                Err(error) => resolve_query(old(self)@, ci, si, qi) == Err::<SharedQuery, _>(error)
                    && final(self)@ == old(self)@,
            },
            well_formed(old(self)@) ==> well_formed(final(self)@),
    {
        match self.query(ci, si, qi) {
            Ok(_) => {
                self.abort_query(ci, si, qi);
                Ok(())
            },
            Err(error) => Err(error),
        }
    }

    /// The number of queries that stand under a handle in the session `si`
    /// of the connection `ci`.
    pub fn live_queries(&self, ci: SlotId, si: SlotId) -> (r: Result<usize, ServiceError>)
        ensures
            match r {
                Ok(n) => resolve_session(self@, ci, si) matches Ok(session) && n == occupied_count(
                    session.queries,
                ),
                Err(error) => resolve_session(self@, ci, si) == Err::<SessionView, _>(error),
            },
    {
        match self.connection(ci) {
            Ok(connection) => match connection.session(si) {
                Ok(session) => Ok(session.queries.occupied()),
                Err(error) => Err(error),
            },
            Err(error) => Err(error),
        }
    }
}

/// Freeing a connection handle keeps a well-formed registry so.
proof fn lemma_well_formed_freed(service: ServiceView, ci: int)
    ensures
        well_formed(service) ==> well_formed(freed(service, ci)),
{
    law_table_shrinks_from_the_end(service, ci);
    let after = freed(service, ci);
    if well_formed(service) {
        assert forall|cj: int| 0 <= cj < after.len() implies ((#[trigger] after[cj]) matches Some(
            connection,
        ) ==> connection_well_formed(connection)) by {
            if cj != ci {
                assert(after[cj] == service[cj]);
            }
        }
    }
}

/// Freeing a session handle keeps a well-formed connection so.
proof fn lemma_connection_well_formed_freed(connection: ConnectionView, si: int)
    ensures
        connection_well_formed(connection) ==> connection_well_formed(
            connection_with(connection, freed(connection.sessions, si)),
        ),
{
    law_table_shrinks_from_the_end(connection.sessions, si);
    let after = freed(connection.sessions, si);
    if connection_well_formed(connection) {
        assert forall|sj: int| 0 <= sj < after.len() implies ((#[trigger] after[sj]) matches Some(
            session,
        ) ==> compact(session.queries)) by {
            if sj != si {
                assert(after[sj] == connection.sessions[sj]);
            }
        }
    }
}

/// A query whose remote call fails to start leaves no trace: starting a
/// query in a session and then freeing the handle it was given puts the
/// whole registry back as it was, the session's table of queries included.
pub proof fn law_failed_start_leaves_no_slot(
    service: ServiceView,
    ci: SlotId,
    si: SlotId,
    query: SharedQuery,
)
    requires
        well_formed(service),
        resolve_session(service, ci, si) is Ok,
    ensures
        with_query_freed(
            with_query_started(service, ci, si, query),
            ci,
            si,
            first_free(resolve_session(service, ci, si)->Ok_0.queries),
        ) == service,
{
    let session = resolve_session(service, ci, si)->Ok_0;
    let qi = first_free(session.queries);
    law_alloc_then_free_restores(session.queries, query);
    // the session is as it was, and so are the connection's sessions
    let after = with_query_freed(with_query_started(service, ci, si, query), ci, si, qi);
    assert(slot_at(after, ci as int)->0.sessions =~= slot_at(service, ci as int)->0.sessions);
}

/// A closed query hands its handle on: in a session whose table of queries
/// has no empty slot below `qi`, closing the query `qi` makes `qi` the handle
/// of the query started next.
pub proof fn law_closed_query_handle_is_reused(
    service: ServiceView,
    ci: SlotId,
    si: SlotId,
    qi: SlotId,
)
    requires
        resolve_query(service, ci, si, qi) is Ok,
        forall|j: int|
            0 <= j < qi ==> (#[trigger] resolve_session(service, ci, si)->Ok_0.queries[j]) is Some,
    ensures
        resolve_session(with_query_freed(service, ci, si, qi as int), ci, si) matches Ok(session)
            && first_free(session.queries) == qi,
{
    let session = resolve_session(service, ci, si)->Ok_0;
    law_next_handle_after_free(session.queries, qi as int);
    lemma_first_free_is_lowest(session.queries, qi as int);
}

/// A query stays under its handle until that handle, its session or its
/// connection is closed: opening a connection, opening a session, starting a
/// query, and closing any other query, session or connection leave it where
/// it is and what it is.
pub proof fn law_live_query_keeps_its_handle(
    service: ServiceView,
    ci: SlotId,
    si: SlotId,
    qi: SlotId,
    opened: ConnectionView,
    created: SessionView,
    started: SharedQuery,
    cj: SlotId,
    sj: SlotId,
    qj: SlotId,
)
    requires
        resolve_query(service, ci, si, qi) is Ok,
    ensures
        resolve_query(stored(service, first_free(service), Some(opened)), ci, si, qi)
            == resolve_query(service, ci, si, qi),
        cj != ci ==> resolve_query(freed(service, cj as int), ci, si, qi) == resolve_query(
            service,
            ci,
            si,
            qi,
        ),
        resolve_connection(service, cj) matches Ok(connection) ==> resolve_query(
            with_sessions(
                service,
                cj,
                stored(connection.sessions, first_free(connection.sessions), Some(created)),
            ),
            ci,
            si,
            qi,
        ) == resolve_query(service, ci, si, qi),
        resolve_connection(service, cj) matches Ok(connection) ==> (cj != ci || sj != si
            ==> resolve_query(
            with_sessions(service, cj, freed(connection.sessions, sj as int)),
            ci,
            si,
            qi,
        ) == resolve_query(service, ci, si, qi)),
        resolve_query(with_query_started(service, cj, sj, started), ci, si, qi) == resolve_query(
            service,
            ci,
            si,
            qi,
        ),
        cj != ci || sj != si || qj != qi ==> resolve_query(
            with_query_freed(service, cj, sj, qj as int),
            ci,
            si,
            qi,
        ) == resolve_query(service, ci, si, qi),
{
    law_alloc_fills_one_slot(service, opened);
    lemma_first_free_is_lowest(service, first_free(service));
    law_free_empties_one_slot(service, cj as int);
    if resolve_connection(service, cj) is Ok {
        let sessions = resolve_connection(service, cj)->Ok_0.sessions;
        law_alloc_fills_one_slot(sessions, created);
        lemma_first_free_is_lowest(sessions, first_free(sessions));
        law_free_empties_one_slot(sessions, sj as int);
    }
    if resolve_session(service, cj, sj) is Ok {
        let queries = resolve_session(service, cj, sj)->Ok_0.queries;
        law_alloc_fills_one_slot(queries, started);
        lemma_first_free_is_lowest(queries, first_free(queries));
        law_free_empties_one_slot(queries, qj as int);
    }
}

/// Sessions do not see each other's queries: whatever becomes of the
/// queries of one session, every other connection and every other session of
/// the same connection stays exactly as it was.
pub proof fn law_other_sessions_are_untouched(
    service: ServiceView,
    ci: SlotId,
    si: SlotId,
    queries: Seq<Option<SharedQuery>>,
    cj: SlotId,
    sj: SlotId,
)
    requires
        cj != ci || sj != si,
    ensures
        resolve_session(with_queries(service, ci, si, queries), cj, sj) == resolve_session(
            service,
            cj,
            sj,
        ),
        cj != ci ==> resolve_connection(with_queries(service, ci, si, queries), cj)
            == resolve_connection(service, cj),
{
}

} // verus!
