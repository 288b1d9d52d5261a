//! A typed facade over one digitizer device. The native front-end library
//! cannot be linked here, so the embedder performs each native call and hands
//! the facade the raw outcome — the status code and whatever the call filled
//! in. The facade holds the connection state, decodes the status, cleans the
//! returned text and decides what the outcome means.
use vstd::prelude::*;

verus! {

use crate::felib::FELibReturn;
use crate::felib::decode_text;
use crate::felib::decode_unit;
use crate::felib::spec_status_of;

/// One digitizer device: its address, the endpoint it streams from, and the
/// handles the front-end resolved for it.
#[derive(Clone, Debug)]
pub struct Dig2 {
    pub url: String,
    pub endpoint: String,
    pub handle: u64,
    pub ep_handle: u64,
    pub ep_folder_handle: u64,
    pub is_connected: bool,
    pub is_ep_configured: bool,
}

impl Dig2 {
    /// Applies the outcome of opening the device at `self.url`: on success
    /// the device handle is adopted and the facade counts as connected; any
    /// failure leaves the facade untouched.
    pub fn open(&mut self, code: i32, handle: u64) -> (r: Result<(), FELibReturn>)
        ensures
            code == 0 ==> r is Ok && final(self).handle == handle && final(self).is_connected
                && final(self).url == old(self).url && final(self).endpoint == old(self).endpoint
                && final(self).ep_handle == old(self).ep_handle && final(self).ep_folder_handle
                == old(self).ep_folder_handle && final(self).is_ep_configured == old(self).is_ep_configured,
            code != 0 ==> r == Result::<(), FELibReturn>::Err(spec_status_of(code as int)) && *final(self) == *old(self),
    {
        match decode_unit(code) {
            Ok(_) => {
                self.handle = handle;
                self.is_connected = true;
                Ok(())
            },
            Err(e) => Err(e),
        }
    }

    /// Applies the outcome of closing the device.
    pub fn close(&self, code: i32) -> (r: Result<(), FELibReturn>)
        ensures
            code == 0 <==> r is Ok,
            code != 0 ==> r == Result::<(), FELibReturn>::Err(spec_status_of(code as int)),
    {
        decode_unit(code)
    }

    /// Applies the outcome of reading the implementation library version:
    /// the text buffer the call filled, with its NUL padding removed.
    pub fn getimpllibversion(&self, code: i32, raw: Vec<u8>) -> (r: Result<Vec<u8>, FELibReturn>)
        ensures
            code == 0 <==> r is Ok,
            code == 0 ==> (r matches Ok(out) && out@ == raw@.filter(|b: u8| b != 0)),
            code != 0 ==> r == Result::<Vec<u8>, FELibReturn>::Err(spec_status_of(code as int)),
    {
        decode_text(code, raw)
    }

    /// Applies the outcome of fetching the device's parameter tree text.
    pub fn getdevicetree(&self, code: i32, raw: Vec<u8>) -> (r: Result<Vec<u8>, FELibReturn>)
        ensures
            code == 0 <==> r is Ok,
            code == 0 ==> (r matches Ok(out) && out@ == raw@.filter(|b: u8| b != 0)),
            code != 0 ==> r == Result::<Vec<u8>, FELibReturn>::Err(spec_status_of(code as int)),
    {
        decode_text(code, raw)
    }

    /// Applies the outcome of reading a value at a dotted parameter path.
    pub fn getvalue(&self, code: i32, raw: Vec<u8>) -> (r: Result<Vec<u8>, FELibReturn>)
        ensures
            code == 0 <==> r is Ok,
            code == 0 ==> (r matches Ok(out) && out@ == raw@.filter(|b: u8| b != 0)),
            code != 0 ==> r == Result::<Vec<u8>, FELibReturn>::Err(spec_status_of(code as int)),
    {
        decode_text(code, raw)
    }

    /// Applies the outcome of setting a value at a dotted parameter path.
    pub fn setvalue(&self, code: i32) -> (r: Result<(), FELibReturn>)
        ensures
            code == 0 <==> r is Ok,
            code != 0 ==> r == Result::<(), FELibReturn>::Err(spec_status_of(code as int)),
    {
        decode_unit(code)
    }

    /// Applies the outcome of sending a command at a dotted path.
    pub fn sendcommand(&self, code: i32) -> (r: Result<(), FELibReturn>)
        ensures
            code == 0 <==> r is Ok,
            code != 0 ==> r == Result::<(), FELibReturn>::Err(spec_status_of(code as int)),
    {
        decode_unit(code)
    }

    /// Applies the outcome of installing the event read format.
    pub fn setreaddataformat(&self, code: i32) -> (r: Result<(), FELibReturn>)
        ensures
            code == 0 <==> r is Ok,
            code != 0 ==> r == Result::<(), FELibReturn>::Err(spec_status_of(code as int)),
    {
        decode_unit(code)
    }

    /// Applies the outcome of asking whether data is pending.
    pub fn hasdata(&self, code: i32) -> (r: Result<(), FELibReturn>)
        ensures
            code == 0 <==> r is Ok,
            code != 0 ==> r == Result::<(), FELibReturn>::Err(spec_status_of(code as int)),
    {
        decode_unit(code)
    }

    /// Applies the outcome of resolving a child handle: on success the
    /// resolved handle is stored through `path_handle`.
    pub fn gethandle(&self, code: i32, resolved: u64, path_handle: &mut u64) -> (r: Result<
        (),
        FELibReturn,
    >)
        ensures
            code == 0 ==> r is Ok && *final(path_handle) == resolved,
            code != 0 ==> r == Result::<(), FELibReturn>::Err(spec_status_of(code as int)) && *final(path_handle) == *old(path_handle),
    {
        match decode_unit(code) {
            Ok(_) => {
                *path_handle = resolved;
                Ok(())
            },
            Err(e) => Err(e),
        }
    }

    /// Applies the outcome of resolving a parent handle: on success the
    /// resolved handle is stored through `path_handle`.
    pub fn getparenthandle(&self, code: i32, resolved: u64, path_handle: &mut u64) -> (r: Result<
        (),
        FELibReturn,
    >)
        ensures
            code == 0 ==> r is Ok && *final(path_handle) == resolved,
            code != 0 ==> r == Result::<(), FELibReturn>::Err(spec_status_of(code as int)) && *final(path_handle) == *old(path_handle),
    {
        match decode_unit(code) {
            Ok(_) => {
                *path_handle = resolved;
                Ok(())
            },
            Err(e) => Err(e),
        }
    }

    /// Applies the outcomes of the four steps that configure the streaming
    /// endpoint — resolving it, resolving its parent, activating it and
    /// installing the read format. The facade adopts the handles only when
    /// every step succeeded; the first failing step's status is the error,
    /// exactly as the steps short-circuit.
    pub fn configure_endpoint(
        &mut self,
        handle_code: i32,
        ep_handle: u64,
        parent_code: i32,
        ep_folder_handle: u64,
        activate_code: i32,
        format_code: i32,
    ) -> (r: Result<(), FELibReturn>)
        ensures
            (handle_code == 0 && parent_code == 0 && activate_code == 0 && format_code == 0) ==> r
                is Ok && final(self).ep_handle == ep_handle && final(self).ep_folder_handle
                == ep_folder_handle && final(self).is_ep_configured && final(self).url == old(self).url && final(self).endpoint == old(self).endpoint && final(self).handle == old(self).handle && final(self).is_connected == old(self).is_connected,
            handle_code != 0 ==> r == Result::<(), FELibReturn>::Err(
                spec_status_of(handle_code as int),
            ) && *final(self) == *old(self),
            (handle_code == 0 && parent_code != 0) ==> r == Result::<(), FELibReturn>::Err(
                spec_status_of(parent_code as int),
            ) && *final(self) == *old(self),
            (handle_code == 0 && parent_code == 0 && activate_code != 0) ==> r == Result::<
                (),
                FELibReturn,
            >::Err(spec_status_of(activate_code as int)) && *final(self) == *old(self),
            (handle_code == 0 && parent_code == 0 && activate_code == 0 && format_code != 0) ==> r
                == Result::<(), FELibReturn>::Err(spec_status_of(format_code as int)) && *final(self) == *old(self),
    {
        if let Err(e) = decode_unit(handle_code) {
            return Err(e);
        }
        if let Err(e) = decode_unit(parent_code) {
            return Err(e);
        }
        if let Err(e) = decode_unit(activate_code) {
            return Err(e);
        }
        match decode_unit(format_code) {
            Ok(_) => {
                self.ep_handle = ep_handle;
                self.ep_folder_handle = ep_folder_handle;
                self.is_ep_configured = true;
                Ok(())
            },
            Err(e) => Err(e),
        }
    }
}

} // verus!
