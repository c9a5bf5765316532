//! The operations of the accessor surface, by name.

use vstd::prelude::*;

verus! {

/// One operation of the accessor surface.
#[derive(Clone, Copy, Debug, PartialEq, Eq, Structural)]
pub enum Operation {
    Metadata,
    Create,
    Read,
    Write,
    Stat,
    Delete,
    List,
    Presign,
    CreateMultipart,
    WriteMultipart,
    CompleteMultipart,
    AbortMultipart,
    BlockingCreate,
    BlockingRead,
    BlockingWrite,
    BlockingStat,
    BlockingDelete,
    BlockingList,
}

/// The name of an operation, as logs and metric labels carry it.
pub open spec fn operation_name(op: Operation) -> Seq<char> {
    match op {
        Operation::Metadata => "metadata"@,
        Operation::Create => "create"@,
        Operation::Read => "read"@,
        Operation::Write => "write"@,
        Operation::Stat => "stat"@,
        Operation::Delete => "delete"@,
        Operation::List => "list"@,
        Operation::Presign => "presign"@,
        Operation::CreateMultipart => "create_multipart"@,
        Operation::WriteMultipart => "write_multipart"@,
        Operation::CompleteMultipart => "complete_multipart"@,
        Operation::AbortMultipart => "abort_multipart"@,
        Operation::BlockingCreate => "blocking_create"@,
        Operation::BlockingRead => "blocking_read"@,
        Operation::BlockingWrite => "blocking_write"@,
        Operation::BlockingStat => "blocking_stat"@,
        Operation::BlockingDelete => "blocking_delete"@,
        Operation::BlockingList => "blocking_list"@,
    }
}

impl Operation {
    /// The operation's name.
    pub fn into_static(self) -> (r: &'static str)
        ensures
            r@ == operation_name(self),
    {
        match self {
            Operation::Metadata => "metadata",
            Operation::Create => "create",
            Operation::Read => "read",
            Operation::Write => "write",
            Operation::Stat => "stat",
            Operation::Delete => "delete",
            Operation::List => "list",
            Operation::Presign => "presign",
            Operation::CreateMultipart => "create_multipart",
            Operation::WriteMultipart => "write_multipart",
            Operation::CompleteMultipart => "complete_multipart",
            Operation::AbortMultipart => "abort_multipart",
            Operation::BlockingCreate => "blocking_create",
            Operation::BlockingRead => "blocking_read",
            Operation::BlockingWrite => "blocking_write",
            Operation::BlockingStat => "blocking_stat",
            Operation::BlockingDelete => "blocking_delete",
            Operation::BlockingList => "blocking_list",
        }
    }
}

} // verus!
