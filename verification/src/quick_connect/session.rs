//! A Quick Connect session: one device that waits to be let in.
use vstd::prelude::*;
use crate::clock;
use crate::clock::{Timestamp, NANOS_PER_MINUTE};
use crate::text;
use crate::text::copy_text;

verus! {

/// How many minutes a session lives.
pub const SESSION_MINUTES: u128 = 10;

/// A session, found by its secret or by its code.
#[derive(Debug)]
pub struct QuickConnectSession {
    pub authenticated: bool,
    pub secret: String,
    pub code: String,
    pub device_id: String,
    pub device_name: String,
    pub app_name: String,
    pub app_version: String,
    pub date_added: Timestamp,
    pub user_id: Option<String>,
    pub expires_at: Timestamp,
}

/// The view of a [`QuickConnectSession`].
pub struct SessionView {
    pub authenticated: bool,
    pub secret: Seq<char>,
    pub code: Seq<char>,
    pub device_id: Seq<char>,
    pub device_name: Seq<char>,
    pub app_name: Seq<char>,
    pub app_version: Seq<char>,
    pub date_added: nat,
    pub user_id: Option<Seq<char>>,
    pub expires_at: nat,
}

impl View for QuickConnectSession {
    type V = SessionView;

    open spec fn view(&self) -> SessionView {
        SessionView {
            authenticated: self.authenticated,
            secret: self.secret@,
            code: self.code@,
            device_id: self.device_id@,
            device_name: self.device_name@,
            app_name: self.app_name@,
            app_version: self.app_version@,
            date_added: self.date_added@,
            user_id: text::opt_text(self.user_id),
            expires_at: self.expires_at@,
        }
    }
}

impl Clone for QuickConnectSession {
    fn clone(&self) -> (copy: Self)
        ensures
            copy@ == self@,
    {
        QuickConnectSession {
            authenticated: self.authenticated,
            secret: self.secret.clone(),
            code: self.code.clone(),
            device_id: self.device_id.clone(),
            device_name: self.device_name.clone(),
            app_name: self.app_name.clone(),
            app_version: self.app_version.clone(),
            date_added: self.date_added,
            user_id: copy_text(&self.user_id),
            expires_at: self.expires_at,
        }
    }
}

/// A session that begins at `now`: nobody has confirmed it yet.
pub open spec fn begun(
    secret: Seq<char>,
    code: Seq<char>,
    device_id: Seq<char>,
    device_name: Seq<char>,
    app_name: Seq<char>,
    app_version: Seq<char>,
    now: nat,
) -> SessionView {
    SessionView {
        authenticated: false,
        secret,
        code,
        device_id,
        device_name,
        app_name,
        app_version,
        date_added: now,
        user_id: None,
        expires_at: clock::later(now, (SESSION_MINUTES * NANOS_PER_MINUTE) as nat),
    }
}

/// A session that `user_id` has confirmed.
pub open spec fn confirmed(session: SessionView, user_id: Seq<char>) -> SessionView {
    SessionView { authenticated: true, user_id: Some(user_id), ..session }
}

/// Whether a session's time is up.
pub open spec fn expired(session: SessionView, now: nat) -> bool {
    now > session.expires_at
}

impl QuickConnectSession {
    /// A session that begins at `now`.
    pub fn new_at(
        secret: String,
        code: String,
        device_id: String,
        device_name: String,
        app_name: String,
        app_version: String,
        now: Timestamp,
    ) -> (session: Self)
        ensures
            session@ == begun(
                secret@,
                code@,
                device_id@,
                device_name@,
                app_name@,
                app_version@,
                now@,
            ),
    {
        QuickConnectSession {
            authenticated: false,
            secret,
            code,
            device_id,
            device_name,
            app_name,
            app_version,
            date_added: now,
            user_id: None,
            expires_at: now.plus(SESSION_MINUTES * NANOS_PER_MINUTE),
        }
    }

    /// A session that begins when the clock says.
    pub fn new(
        secret: String,
        code: String,
        device_id: String,
        device_name: String,
        app_name: String,
        app_version: String,
    ) -> (session: Self)
        ensures
            session@ == begun(
                secret@,
                code@,
                device_id@,
                device_name@,
                app_name@,
                app_version@,
                session.date_added@,
            ),
            clock::is_reading(session.date_added@),
            session.expires_at@ == session.date_added@ + SESSION_MINUTES * NANOS_PER_MINUTE,
    {
        QuickConnectSession::new_at(
            secret,
            code,
            device_id,
            device_name,
            app_name,
            app_version,
            Timestamp::now(),
        )
    }

    /// Whether the session's time is up at `now`.
    pub fn is_expired_at(&self, now: Timestamp) -> (up: bool)
        ensures
            up == expired(self@, now@),
    {
        now.nanos > self.expires_at.nanos
    }

    /// Whether the session's time is up, by the clock. Which of the times that it
    /// can show the clock does show is left open.
    pub fn is_expired(&self) -> (up: bool)
        ensures
            exists|now: nat| clock::is_reading(now) && up == #[trigger] expired(self@, now),
    {
        let now = Timestamp::now();
        let up = self.is_expired_at(now);
        assert(up == expired(self@, now@));
        up
    }
}

/// A session is alive when it begins and for the ten minutes that follow, and
/// is never alive again after that.
pub proof fn law_session_lives_ten_minutes(
    secret: Seq<char>,
    code: Seq<char>,
    device_id: Seq<char>,
    device_name: Seq<char>,
    app_name: Seq<char>,
    app_version: Seq<char>,
    begin: nat,
    now: nat,
)
    requires
        begin + SESSION_MINUTES * NANOS_PER_MINUTE <= u128::MAX,
    ensures
        expired(
            begun(secret, code, device_id, device_name, app_name, app_version, begin),
            now,
        ) <==> now > begin + SESSION_MINUTES * NANOS_PER_MINUTE,
{
}

} // verus!
