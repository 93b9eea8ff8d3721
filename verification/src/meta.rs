//! Kinds and status codes stored in the metadata tables.
use vstd::prelude::*;

verus! {

/// Kind of an entry of the file tree.
#[derive(PartialEq, Eq, Structural, Clone, Copy, Debug)]
pub enum FileMetaType {
    FILE,
    DIR,
    SYMLINK,
}

impl FileMetaType {
    pub open spec fn spec_code(self) -> i32 {
        match self {
            FileMetaType::FILE => 0,
            FileMetaType::DIR => 1,
            FileMetaType::SYMLINK => 2,
        }
    }

    /// The code stored in the `file_type` column.
    pub fn get_code(&self) -> (c: i32)
        ensures
            c == self.spec_code(),
    {
        match self {
            FileMetaType::FILE => 0,
            FileMetaType::DIR => 1,
            FileMetaType::SYMLINK => 2,
        }
    }

    /// The kind stored under `code`, if any.
    pub fn from_code(code: i32) -> (r: Option<FileMetaType>)
        ensures
            match r {
                Some(t) => t.spec_code() == code,
                None => forall|t: FileMetaType| t.spec_code() != code,
            },
    {
        match code {
            0 => Some(FileMetaType::FILE),
            1 => Some(FileMetaType::DIR),
            2 => Some(FileMetaType::SYMLINK),
            _ => None,
        }
    }

    /// The kind stored under the low 32 bits of `v`: a stored number is read back as an
    /// `i32` code, whatever width it was read with.
    pub fn from_stored(v: i64) -> (r: Option<FileMetaType>)
        ensures
            match r {
                Some(t) => t.spec_code() == v as i32,
                None => forall|t: FileMetaType| t.spec_code() != v as i32,
            },
    {
        let code: i32 = #[verifier::truncate] (v as i32);
        Self::from_code(code)
    }

    pub open spec fn spec_name(self) -> Seq<char> {
        match self {
            FileMetaType::FILE => seq!['F', 'I', 'L', 'E'],
            FileMetaType::DIR => seq!['D', 'I', 'R'],
            FileMetaType::SYMLINK => seq!['S', 'Y', 'M', 'L', 'I', 'N', 'K'],
        }
    }

    /// The name under which the kind is displayed.
    pub fn name(&self) -> (s: &'static str)
        ensures
            s@ == self.spec_name(),
    {
        proof {
            reveal_strlit("FILE");
            reveal_strlit("DIR");
            reveal_strlit("SYMLINK");
        }
        match self {
            FileMetaType::FILE => "FILE",
            FileMetaType::DIR => "DIR",
            FileMetaType::SYMLINK => "SYMLINK",
        }
    }
}

/// The kind of storage a cloud account is.
#[derive(PartialEq, Eq, Structural, Clone, Copy, Debug)]
pub enum CloudType {
    AliYun,
    Baidu,
    Local,
    OneDrive,
    Sftp,
}

impl CloudType {
    pub open spec fn spec_code(self) -> i8 {
        match self {
            CloudType::AliYun => 1,
            CloudType::Baidu => 2,
            CloudType::Local => 3,
            CloudType::OneDrive => 4,
            CloudType::Sftp => 5,
        }
    }

    /// The code stored for this value.
    pub fn code(&self) -> (c: i8)
        ensures
            c == self.spec_code(),
    {
        match self {
            CloudType::AliYun => 1,
            CloudType::Baidu => 2,
            CloudType::Local => 3,
            CloudType::OneDrive => 4,
            CloudType::Sftp => 5,
        }
    }

    /// The value stored under `code`, if any.
    pub fn from_code(code: i8) -> (r: Option<CloudType>)
        ensures
            match r {
                Some(v) => v.spec_code() == code,
                None => forall|v: CloudType| v.spec_code() != code,
            },
    {
        match code {
            1 => Some(CloudType::AliYun),
            2 => Some(CloudType::Baidu),
            3 => Some(CloudType::Local),
            4 => Some(CloudType::OneDrive),
            5 => Some(CloudType::Sftp),
            _ => None,
        }
    }

    /// The value stored under the low eight bits of `v`: a stored number is read back as an
    /// `i8` code, whatever width it was read with.
    pub fn from_stored(v: i64) -> (r: Option<CloudType>)
        ensures
            match r {
                Some(t) => t.spec_code() == v as i8,
                None => forall|t: CloudType| t.spec_code() != v as i8,
            },
    {
        let code: i8 = #[verifier::truncate] (v as i8);
        Self::from_code(code)
    }
}

/// The state of a cloud account.
#[derive(PartialEq, Eq, Structural, Clone, Copy, Debug)]
pub enum MetaStatus {
    WaitInit,
    WaitDataRoot,
    Enable,
    Disabled,
}

impl MetaStatus {
    /// The value stored under `code`, if any.
    pub open spec fn from_code_spec(code: i8) -> Option<MetaStatus> {
        if code == 0 {
            Some(MetaStatus::WaitInit)
        } else if code == 1 {
            Some(MetaStatus::WaitDataRoot)
        } else if code == 2 {
            Some(MetaStatus::Enable)
        } else if code == 3 {
            Some(MetaStatus::Disabled)
        } else {
            None
        }
    }

    pub open spec fn spec_code(self) -> i8 {
        match self {
            MetaStatus::WaitInit => 0,
            MetaStatus::WaitDataRoot => 1,
            MetaStatus::Enable => 2,
            MetaStatus::Disabled => 3,
        }
    }

    /// The code stored for this value.
    pub fn code(&self) -> (c: i8)
        ensures
            c == self.spec_code(),
    {
        match self {
            MetaStatus::WaitInit => 0,
            MetaStatus::WaitDataRoot => 1,
            MetaStatus::Enable => 2,
            MetaStatus::Disabled => 3,
        }
    }

    /// The value stored under `code`, if any.
    pub fn from_code(code: i8) -> (r: Option<MetaStatus>)
        ensures
            match r {
                Some(v) => v.spec_code() == code,
                None => forall|v: MetaStatus| v.spec_code() != code,
            },
    {
        match code {
            0 => Some(MetaStatus::WaitInit),
            1 => Some(MetaStatus::WaitDataRoot),
            2 => Some(MetaStatus::Enable),
            3 => Some(MetaStatus::Disabled),
            _ => None,
        }
    }

    /// The value stored under the low eight bits of `v`: a stored number is read back as an
    /// `i8` code, whatever width it was read with.
    pub fn from_stored(v: i64) -> (r: Option<MetaStatus>)
        ensures
            match r {
                Some(t) => t.spec_code() == v as i8,
                None => forall|t: MetaStatus| t.spec_code() != v as i8,
            },
    {
        let code: i8 = #[verifier::truncate] (v as i8);
        Self::from_code(code)
    }
}

/// The state of a file, a block or a copy of a block in a cloud.
#[derive(PartialEq, Eq, Structural, Clone, Copy, Debug)]
pub enum FileStatus {
    Init,
    Uploading,
    UploadSuccess,
    UploadFail,
    FileNotExist,
    FileReadError,
    Cleaning,
    WaitClean,
    Cleaned,
    CleanFail,
}

impl FileStatus {
    pub open spec fn spec_code(self) -> i8 {
        match self {
            FileStatus::Init => 0,
            FileStatus::Uploading => 1,
            FileStatus::UploadSuccess => 2,
            FileStatus::UploadFail => 3,
            FileStatus::FileNotExist => 4,
            FileStatus::FileReadError => 5,
            FileStatus::Cleaning => 6,
            FileStatus::WaitClean => 7,
            FileStatus::Cleaned => 8,
            FileStatus::CleanFail => 9,
        }
    }

    /// The code stored for this value.
    pub fn code(&self) -> (c: i8)
        ensures
            c == self.spec_code(),
    {
        match self {
            FileStatus::Init => 0,
            FileStatus::Uploading => 1,
            FileStatus::UploadSuccess => 2,
            FileStatus::UploadFail => 3,
            FileStatus::FileNotExist => 4,
            FileStatus::FileReadError => 5,
            FileStatus::Cleaning => 6,
            FileStatus::WaitClean => 7,
            FileStatus::Cleaned => 8,
            FileStatus::CleanFail => 9,
        }
    }

    /// The value stored under `code`, if any.
    pub fn from_code(code: i8) -> (r: Option<FileStatus>)
        ensures
            match r {
                Some(v) => v.spec_code() == code,
                None => forall|v: FileStatus| v.spec_code() != code,
            },
    {
        match code {
            0 => Some(FileStatus::Init),
            1 => Some(FileStatus::Uploading),
            2 => Some(FileStatus::UploadSuccess),
            3 => Some(FileStatus::UploadFail),
            4 => Some(FileStatus::FileNotExist),
            5 => Some(FileStatus::FileReadError),
            6 => Some(FileStatus::Cleaning),
            7 => Some(FileStatus::WaitClean),
            8 => Some(FileStatus::Cleaned),
            9 => Some(FileStatus::CleanFail),
            _ => None,
        }
    }
}

/// The kind of an event recorded in the event table.
#[derive(PartialEq, Eq, Structural, Clone, Copy, Debug)]
pub enum EventType {
    UploadFileBlock,
}

impl EventType {
    pub open spec fn spec_code(self) -> i8 {
        match self {
            EventType::UploadFileBlock => 0,
        }
    }

    /// The code stored for this value.
    pub fn code(&self) -> (c: i8)
        ensures
            c == self.spec_code(),
    {
        match self {
            EventType::UploadFileBlock => 0,
        }
    }

    /// The value stored under `code`, if any.
    pub fn from_code(code: i8) -> (r: Option<EventType>)
        ensures
            match r {
                Some(v) => v.spec_code() == code,
                None => forall|v: EventType| v.spec_code() != code,
            },
    {
        match code {
            0 => Some(EventType::UploadFileBlock),
            _ => None,
        }
    }
}

/// How an event ended.
#[derive(PartialEq, Eq, Structural, Clone, Copy, Debug)]
pub enum EventResult {
    Success,
    Fail,
}

impl EventResult {
    pub open spec fn spec_code(self) -> i8 {
        match self {
            EventResult::Success => 0,
            EventResult::Fail => 1,
        }
    }

    /// The code stored for this value.
    pub fn code(&self) -> (c: i8)
        ensures
            c == self.spec_code(),
    {
        match self {
            EventResult::Success => 0,
            EventResult::Fail => 1,
        }
    }

    /// The value stored under `code`, if any.
    pub fn from_code(code: i8) -> (r: Option<EventResult>)
        ensures
            match r {
                Some(v) => v.spec_code() == code,
                None => forall|v: EventResult| v.spec_code() != code,
            },
    {
        match code {
            0 => Some(EventResult::Success),
            1 => Some(EventResult::Fail),
            _ => None,
        }
    }
}

/// Writing a kind as its code and reading the code back gives that kind: no two kinds
/// share a code.
pub proof fn file_type_code_round_trip(t: FileMetaType, u: FileMetaType)
    ensures
        t.spec_code() == u.spec_code() ==> t == u,
{
}

/// Writing a cloud type as its code and reading the code back gives that type.
pub proof fn cloud_type_code_round_trip(t: CloudType, u: CloudType)
    ensures
        t.spec_code() == u.spec_code() ==> t == u,
{
}

/// Writing an account state as its code and reading the code back gives that state.
pub proof fn meta_status_code_round_trip(t: MetaStatus)
    ensures
        MetaStatus::from_code_spec(t.spec_code()) == Some(t),
{
}

} // verus!
