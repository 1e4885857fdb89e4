//! The commands of the user interface, as far as they decide anything.

use vstd::prelude::*;
use vstd::string::*;
use crate::sidecar::{
    after_start, reuses, working_dir, ProcessStatus, ScriptLocation, SidecarManager, StartStep,
    GLOBAL_SIDECAR_ID,
};
use crate::text::{decimal, push_decimal};

verus! {

/// The address of the worker on `port`.
pub open spec fn server_url(port: u16) -> Seq<char> {
    "http://127.0.0.1:"@ + decimal(port as nat)
}

/// The error of asking for the address of a session without a worker.
pub open spec fn no_sidecar_error(tab_id: Seq<char>) -> Seq<char> {
    "No sidecar running for tab '"@ + tab_id + "'"@
}

/// The address of the worker of `tab_id`, or an error that names the session
/// where it has no worker.
pub fn cmd_get_tab_server_url<P>(manager: &SidecarManager<P>, tab_id: &str) -> (url: Result<
    String,
    String,
>)
    requires
        manager.wf(),
    ensures
        match url {
            Ok(address) => manager@.instances.dom().contains(tab_id@) && address@ == server_url(
                manager@.instances[tab_id@].port,
            ),
            Err(message) => !manager@.instances.dom().contains(tab_id@) && message@
                == no_sidecar_error(tab_id@),
        },
{
    match manager.get_port(tab_id) {
        Some(port) => {
            let mut address = String::from_str("http://127.0.0.1:");
            push_decimal(&mut address, port as u64);
            Ok(address)
        },
        None => {
            let mut message = String::from_str("No sidecar running for tab '");
            message.append(tab_id);
            message.append("'");
            Err(message)
        },
    }
}

/// Decides a start of the worker that the whole application shares: a start
/// for the reserved session id.
pub fn cmd_start_global_sidecar<P>(
    manager: &mut SidecarManager<P>,
    status: ProcessStatus,
    location: &ScriptLocation,
) -> (step: StartStep<P>)
    requires
        old(manager).wf(),
    ensures
        final(manager).wf(),
        final(manager)@ == after_start(old(manager)@, GLOBAL_SIDECAR_ID@, status),
        match step {
            StartStep::Reuse { port } => reuses(old(manager)@, GLOBAL_SIDECAR_ID@, status) && port
                == old(manager)@.instances[GLOBAL_SIDECAR_ID@].port,
            StartStep::Launch { plan, stale } => !reuses(old(manager)@, GLOBAL_SIDECAR_ID@, status)
                && plan.port == old(manager)@.next_port && plan.port_text@ == decimal(
                plan.port as nat,
            ) && plan.cwd@ == working_dir(*location) && stale == if old(
                manager,
            )@.instances.dom().contains(GLOBAL_SIDECAR_ID@) {
                Some(old(manager)@.instances[GLOBAL_SIDECAR_ID@])
            } else {
                None
            },
        },
{
    manager.start_sidecar(GLOBAL_SIDECAR_ID, status, location)
}

} // verus!
