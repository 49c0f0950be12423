//! Connection bookkeeping: the records shown in the connection list, what a
//! save stores, and the secrets a connection attempt uses.
use crate::error::{response_is, DriverErrorResponse};
use crate::persistence::copy_config;
use crate::text::{chars_of, text_of};
use crate::types::{ConnectionConfig, ConnectionSecrets};
use vstd::prelude::*;

verus! {

/// A saved connection and whether it is connected now.
#[derive(Clone, Debug)]
pub struct ConnectionRecord {
    pub config: ConnectionConfig,
    pub connected: bool,
}

/// Save (or update) a connection, with its password when one is typed.
#[derive(Clone, Debug)]
pub struct SaveConnectionRequest {
    pub config: ConnectionConfig,
    pub password: Option<String>,
}

/// Try a connection, saved or not.
#[derive(Clone, Debug)]
pub struct TestConnectionRequest {
    pub config: ConnectionConfig,
    pub password: Option<String>,
}

/// The connection list: each saved connection, in order, marked connected
/// when its id is among the active ones.
pub fn connection_records(configs: &Vec<ConnectionConfig>, active: &Vec<u128>) -> (r: Vec<
    ConnectionRecord,
>)
    ensures
        r@.len() == configs@.len(),
        forall|i: int|
            0 <= i < r@.len() ==> (#[trigger] r@[i]).config == configs@[i] && r@[i].connected
                == active@.contains(configs@[i].id),
{
    let mut r: Vec<ConnectionRecord> = Vec::new();
    let mut i: usize = 0;
    while i < configs.len()
        invariant
            i <= configs@.len(),
            r@.len() == i,
            forall|k: int|
                0 <= k < r@.len() ==> (#[trigger] r@[k]).config == configs@[k] && r@[k].connected
                    == active@.contains(configs@[k].id),
        decreases configs@.len() - i,
    {
        let c = copy_config(&configs[i]);
        let mut connected = false;
        let mut k: usize = 0;
        while k < active.len()
            invariant
                k <= active@.len(),
                connected == exists|j: int| 0 <= j < k && active@[j] == c.id,
            decreases active@.len() - k,
        {
            if active[k] == c.id {
                connected = true;
            }
            k = k + 1;
        }
        proof {
            if connected {
                let j = choose|j: int| 0 <= j < active@.len() && active@[j] == c.id;
                assert(active@.contains(c.id));
            }
        }
        r.push(ConnectionRecord { config: c, connected });
        i = i + 1;
    }
    r
}

/// What a save keeps: the configuration stamped with the save time, and the
/// password to store, if one was typed.
pub open spec fn save_plan_ok(
    req: SaveConnectionRequest,
    now: Seq<char>,
    r: (ConnectionConfig, Option<String>),
) -> bool {
    &&& r.0 == ConnectionConfig { updated_at: r.0.updated_at, ..req.config }
    &&& r.0.updated_at@ == now
    &&& match req.password {
        Some(p) => if p@.len() == 0 {
            r.1 is None
        } else {
            r.1 == Some(p)
        },
        None => r.1 is None,
    }
}

/// Prepares a save: stamps `updated_at` with `now` and keeps the password
/// only when it is not empty.
pub fn prepare_save(req: SaveConnectionRequest, now: &str) -> (r: (ConnectionConfig, Option<String>))
    ensures
        save_plan_ok(req, now@, r),
{
    let ghost old_req = req;
    let mut config = req.config;
    config.updated_at = text_of(now);
    let password = match req.password {
        Some(p) => {
            let cs = chars_of(p.as_str());
            if cs.len() == 0 {
                None
            } else {
                Some(p)
            }
        },
        None => None,
    };
    (config, password)
}

/// The secrets for a connection attempt: the typed password, else the stored
/// one; no SSH password.
pub fn attempt_secrets(typed: Option<String>, stored: Option<String>) -> (s: ConnectionSecrets)
    ensures
        s.password == (match typed {
            Some(p) => Some(p),
            None => stored,
        }),
        s.ssh_password is None,
{
    let password = match typed {
        Some(p) => Some(p),
        None => stored,
    };
    ConnectionSecrets { password, ssh_password: None }
}

/// The answer when the connection id is not saved.
pub fn not_found_response() -> (r: DriverErrorResponse)
    ensures
        response_is(r, "not_found"@, "连接不存在"@, None),
{
    DriverErrorResponse::plain("not_found", "连接不存在")
}

/// The answer when the connection is not open.
pub fn not_connected_response() -> (r: DriverErrorResponse)
    ensures
        response_is(r, "not_connected"@, "请先连接数据库"@, None),
{
    DriverErrorResponse::plain("not_connected", "请先连接数据库")
}

} // verus!
