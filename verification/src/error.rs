//! The errors of the library and how they are displayed.
use vstd::prelude::*;
use vstd::string::*;
use crate::text::{int_decimal, append_i64};

verus! {

#[derive(Debug, PartialEq, Clone)]
pub enum ErrorInfo {
    Retry,
    NotFoundConfig(String),
    FileNotFound(String),
    FileAlreadyExist(String),
    Http302(String),
    Http401,
    NoneCloudFileId(i32),
    NoneCloudMeta(i32),
    Http(i32),
    OTHER(i32, String),
}

impl ErrorInfo {
    pub fn new(code: i32, message: &str) -> (e: ErrorInfo)
        ensures
            e matches ErrorInfo::OTHER(c, m) && c == code && m@ == message@,
    {
        ErrorInfo::OTHER(code, message.to_owned())
    }

    pub fn new_string(code: i32, message: String) -> (e: ErrorInfo)
        ensures
            e == ErrorInfo::OTHER(code, message),
    {
        ErrorInfo::OTHER(code, message)
    }

    /// A database failure, by its text.
    pub fn database(message: String) -> (e: ErrorInfo)
        ensures
            e == ErrorInfo::OTHER(1, message),
    {
        ErrorInfo::OTHER(1, message)
    }

    /// A failure of the HTTP client, by its text.
    pub fn http_client(message: String) -> (e: ErrorInfo)
        ensures
            e == ErrorInfo::OTHER(20, message),
    {
        ErrorInfo::OTHER(20, message)
    }

    /// A stored token that cannot be read, by the parser's text.
    pub fn bad_token(message: String) -> (e: ErrorInfo)
        ensures
            e == ErrorInfo::OTHER(50, message),
    {
        ErrorInfo::OTHER(50, message)
    }

    /// JSON that cannot be read or written, by the parser's text.
    pub fn json(message: String) -> (e: ErrorInfo)
        ensures
            e == ErrorInfo::OTHER(102, message),
    {
        ErrorInfo::OTHER(102, message)
    }

    /// The displayed code fits in an `i32`.
    pub open spec fn display_ok(self) -> bool {
        match self {
            ErrorInfo::Http(code) => code + 5000 <= i32::MAX,
            ErrorInfo::OTHER(code, _) => code + 6000 <= i32::MAX,
            _ => true,
        }
    }

    /// The code shown in front of the message.
    pub open spec fn spec_display_code(self) -> int {
        match self {
            ErrorInfo::Retry => 3000,
            ErrorInfo::NotFoundConfig(_) => 4000,
            ErrorInfo::FileNotFound(_) => 4000,
            ErrorInfo::FileAlreadyExist(_) => 4001,
            ErrorInfo::Http302(_) => 5302,
            ErrorInfo::Http401 => 5401,
            ErrorInfo::Http(code) => 5000 + code,
            ErrorInfo::OTHER(code, _) => 6000 + code,
            ErrorInfo::NoneCloudFileId(_) => 7000,
            ErrorInfo::NoneCloudMeta(_) => 7000,
        }
    }

    /// The message shown after the code.
    pub open spec fn spec_display_message(self) -> Seq<char> {
        match self {
            ErrorInfo::Retry => "retry"@,
            ErrorInfo::NotFoundConfig(m) => m@,
            ErrorInfo::FileNotFound(f) => f@,
            ErrorInfo::FileAlreadyExist(f) => f@,
            ErrorInfo::Http302(u) => u@,
            ErrorInfo::Http401 => ""@,
            ErrorInfo::Http(_) => ""@,
            ErrorInfo::OTHER(_, msg) => msg@,
            ErrorInfo::NoneCloudFileId(id) => "未找到云文件ID:"@ + int_decimal(id as int),
            ErrorInfo::NoneCloudMeta(id) => "云配置："@ + int_decimal(id as int) + ",没有找到"@,
        }
    }

    /// The displayed text: the code, a colon, and the message.
    pub open spec fn spec_display(self) -> Seq<char> {
        int_decimal(self.spec_display_code()) + ":"@ + self.spec_display_message()
    }

    /// The code shown in front of the message.
    pub fn display_code(&self) -> (c: i32)
        requires
            self.display_ok(),
        ensures
            c as int == self.spec_display_code(),
    {
        match self {
            ErrorInfo::Retry => 3000,
            ErrorInfo::NotFoundConfig(_) => 4000,
            ErrorInfo::FileNotFound(_) => 4000,
            ErrorInfo::FileAlreadyExist(_) => 4001,
            ErrorInfo::Http302(_) => 5302,
            ErrorInfo::Http401 => 5401,
            ErrorInfo::Http(code) => 5000 + *code,
            ErrorInfo::OTHER(code, _) => 6000 + *code,
            ErrorInfo::NoneCloudFileId(_) => 7000,
            ErrorInfo::NoneCloudMeta(_) => 7000,
        }
    }

    /// Appends the message shown after the code to `buf`.
    pub fn append_display_message(&self, buf: &mut String)
        ensures
            final(buf)@ == old(buf)@ + self.spec_display_message(),
    {
        match self {
            ErrorInfo::Retry => buf.append("retry"),
            ErrorInfo::NotFoundConfig(m) => buf.append(m.as_str()),
            ErrorInfo::FileNotFound(f) => buf.append(f.as_str()),
            ErrorInfo::FileAlreadyExist(f) => buf.append(f.as_str()),
            ErrorInfo::Http302(u) => buf.append(u.as_str()),
            ErrorInfo::Http401 => buf.append(""),
            ErrorInfo::Http(_) => buf.append(""),
            ErrorInfo::OTHER(_, msg) => buf.append(msg.as_str()),
            ErrorInfo::NoneCloudFileId(id) => {
                buf.append("未找到云文件ID:");
                append_i64(buf, *id as i64);
                assert(buf@ =~= old(buf)@ + self.spec_display_message());
            },
            ErrorInfo::NoneCloudMeta(id) => {
                buf.append("云配置：");
                append_i64(buf, *id as i64);
                buf.append(",没有找到");
                assert(buf@ =~= old(buf)@ + self.spec_display_message());
            },
        }
    }

    /// The text the error is displayed as: `code:message`.
    pub fn to_display_string(&self) -> (s: String)
        requires
            self.display_ok(),
        ensures
            s@ == self.spec_display(),
    {
        let mut s = String::new();
        append_i64(&mut s, self.display_code() as i64);
        s.append(":");
        self.append_display_message(&mut s);
        assert(s@ =~= self.spec_display());
        s
    }
}

} // verus!
