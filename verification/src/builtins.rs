//! Signatures of Perl's built-in functions, for signature help.
use vstd::prelude::*;
use crate::json::{JsonValue, JsonMember, member, str_value};
use crate::lifecycle::LspServer;
use crate::text::str_eq;

verus! {

/// The signature label and parameter names of the built-ins from `print` to `bless`.
pub open spec fn builtin_signature_core(name: Seq<char>) -> Option<(Seq<char>, Seq<Seq<char>>)> {
    if name == "print"@ {
        Some(("print LIST"@, seq!["LIST"@]))
    } else if name == "printf"@ {
        Some(("printf FORMAT, LIST"@, seq!["FORMAT"@, "LIST"@]))
    } else if name == "open"@ {
        Some(("open FILEHANDLE, MODE, EXPR"@, seq!["FILEHANDLE"@, "MODE"@, "EXPR"@]))
    } else if name == "close"@ {
        Some(("close FILEHANDLE"@, seq!["FILEHANDLE"@]))
    } else if name == "read"@ {
        Some(("read FILEHANDLE, SCALAR, LENGTH, OFFSET"@, seq!["FILEHANDLE"@, "SCALAR"@, "LENGTH"@, "OFFSET"@]))
    } else if name == "write"@ {
        Some(("write FILEHANDLE"@, seq!["FILEHANDLE"@]))
    } else if name == "die"@ {
        Some(("die LIST"@, seq!["LIST"@]))
    } else if name == "warn"@ {
        Some(("warn LIST"@, seq!["LIST"@]))
    } else if name == "substr"@ {
        Some(("substr EXPR, OFFSET, LENGTH, REPLACEMENT"@, seq!["EXPR"@, "OFFSET"@, "LENGTH"@, "REPLACEMENT"@]))
    } else if name == "length"@ {
        Some(("length EXPR"@, seq!["EXPR"@]))
    } else if name == "index"@ {
        Some(("index STR, SUBSTR, POSITION"@, seq!["STR"@, "SUBSTR"@, "POSITION"@]))
    } else if name == "rindex"@ {
        Some(("rindex STR, SUBSTR, POSITION"@, seq!["STR"@, "SUBSTR"@, "POSITION"@]))
    } else if name == "sprintf"@ {
        Some(("sprintf FORMAT, LIST"@, seq!["FORMAT"@, "LIST"@]))
    } else if name == "join"@ {
        Some(("join EXPR, LIST"@, seq!["EXPR"@, "LIST"@]))
    } else if name == "split"@ {
        Some(("split /PATTERN/, EXPR, LIMIT"@, seq!["/PATTERN/"@, "EXPR"@, "LIMIT"@]))
    } else if name == "push"@ {
        Some(("push ARRAY, LIST"@, seq!["ARRAY"@, "LIST"@]))
    } else if name == "pop"@ {
        Some(("pop ARRAY"@, seq!["ARRAY"@]))
    } else if name == "shift"@ {
        Some(("shift ARRAY"@, seq!["ARRAY"@]))
    } else if name == "unshift"@ {
        Some(("unshift ARRAY, LIST"@, seq!["ARRAY"@, "LIST"@]))
    } else if name == "splice"@ {
        Some(("splice ARRAY, OFFSET, LENGTH, LIST"@, seq!["ARRAY"@, "OFFSET"@, "LENGTH"@, "LIST"@]))
    } else if name == "grep"@ {
        Some(("grep BLOCK LIST"@, seq!["BLOCK"@, "LIST"@]))
    } else if name == "map"@ {
        Some(("map BLOCK LIST"@, seq!["BLOCK"@, "LIST"@]))
    } else if name == "sort"@ {
        Some(("sort BLOCK LIST"@, seq!["BLOCK"@, "LIST"@]))
    } else if name == "reverse"@ {
        Some(("reverse LIST"@, seq!["LIST"@]))
    } else if name == "keys"@ {
        Some(("keys HASH"@, seq!["HASH"@]))
    } else if name == "values"@ {
        Some(("values HASH"@, seq!["HASH"@]))
    } else if name == "each"@ {
        Some(("each HASH"@, seq!["HASH"@]))
    } else if name == "exists"@ {
        Some(("exists EXPR"@, seq!["EXPR"@]))
    } else if name == "delete"@ {
        Some(("delete EXPR"@, seq!["EXPR"@]))
    } else if name == "defined"@ {
        Some(("defined EXPR"@, seq!["EXPR"@]))
    } else if name == "undef"@ {
        Some(("undef EXPR"@, seq!["EXPR"@]))
    } else if name == "ref"@ {
        Some(("ref EXPR"@, seq!["EXPR"@]))
    } else if name == "bless"@ {
        Some(("bless REF, CLASSNAME"@, seq!["REF"@, "CLASSNAME"@]))
    } else {
        None
    }
}

/// The signature label and parameter names of the built-ins from `chomp` to `scalar`.
pub open spec fn builtin_signature_files(name: Seq<char>) -> Option<(Seq<char>, Seq<Seq<char>>)> {
    if name == "chomp"@ {
        Some(("chomp VARIABLE"@, seq!["VARIABLE"@]))
    } else if name == "chop"@ {
        Some(("chop VARIABLE"@, seq!["VARIABLE"@]))
    } else if name == "chr"@ {
        Some(("chr NUMBER"@, seq!["NUMBER"@]))
    } else if name == "ord"@ {
        Some(("ord EXPR"@, seq!["EXPR"@]))
    } else if name == "lc"@ {
        Some(("lc EXPR"@, seq!["EXPR"@]))
    } else if name == "uc"@ {
        Some(("uc EXPR"@, seq!["EXPR"@]))
    } else if name == "lcfirst"@ {
        Some(("lcfirst EXPR"@, seq!["EXPR"@]))
    } else if name == "ucfirst"@ {
        Some(("ucfirst EXPR"@, seq!["EXPR"@]))
    } else if name == "seek"@ {
        Some(("seek FILEHANDLE, POSITION, WHENCE"@, seq!["FILEHANDLE"@, "POSITION"@, "WHENCE"@]))
    } else if name == "tell"@ {
        Some(("tell FILEHANDLE"@, seq!["FILEHANDLE"@]))
    } else if name == "stat"@ {
        Some(("stat EXPR"@, seq!["EXPR"@]))
    } else if name == "lstat"@ {
        Some(("lstat EXPR"@, seq!["EXPR"@]))
    } else if name == "chmod"@ {
        Some(("chmod MODE, LIST"@, seq!["MODE"@, "LIST"@]))
    } else if name == "chown"@ {
        Some(("chown UID, GID, LIST"@, seq!["UID"@, "GID"@, "LIST"@]))
    } else if name == "unlink"@ {
        Some(("unlink LIST"@, seq!["LIST"@]))
    } else if name == "rename"@ {
        Some(("rename OLDNAME, NEWNAME"@, seq!["OLDNAME"@, "NEWNAME"@]))
    } else if name == "mkdir"@ {
        Some(("mkdir FILENAME, MODE"@, seq!["FILENAME"@, "MODE"@]))
    } else if name == "rmdir"@ {
        Some(("rmdir FILENAME"@, seq!["FILENAME"@]))
    } else if name == "opendir"@ {
        Some(("opendir DIRHANDLE, EXPR"@, seq!["DIRHANDLE"@, "EXPR"@]))
    } else if name == "readdir"@ {
        Some(("readdir DIRHANDLE"@, seq!["DIRHANDLE"@]))
    } else if name == "closedir"@ {
        Some(("closedir DIRHANDLE"@, seq!["DIRHANDLE"@]))
    } else if name == "link"@ {
        Some(("link OLDFILE, NEWFILE"@, seq!["OLDFILE"@, "NEWFILE"@]))
    } else if name == "symlink"@ {
        Some(("symlink OLDFILE, NEWFILE"@, seq!["OLDFILE"@, "NEWFILE"@]))
    } else if name == "readlink"@ {
        Some(("readlink EXPR"@, seq!["EXPR"@]))
    } else if name == "truncate"@ {
        Some(("truncate FILEHANDLE, LENGTH"@, seq!["FILEHANDLE"@, "LENGTH"@]))
    } else if name == "pack"@ {
        Some(("pack TEMPLATE, LIST"@, seq!["TEMPLATE"@, "LIST"@]))
    } else if name == "unpack"@ {
        Some(("unpack TEMPLATE, EXPR"@, seq!["TEMPLATE"@, "EXPR"@]))
    } else if name == "quotemeta"@ {
        Some(("quotemeta EXPR"@, seq!["EXPR"@]))
    } else if name == "hex"@ {
        Some(("hex EXPR"@, seq!["EXPR"@]))
    } else if name == "oct"@ {
        Some(("oct EXPR"@, seq!["EXPR"@]))
    } else if name == "vec"@ {
        Some(("vec EXPR, OFFSET, BITS"@, seq!["EXPR"@, "OFFSET"@, "BITS"@]))
    } else if name == "crypt"@ {
        Some(("crypt PLAINTEXT, SALT"@, seq!["PLAINTEXT"@, "SALT"@]))
    } else if name == "scalar"@ {
        Some(("scalar EXPR"@, seq!["EXPR"@]))
    } else {
        None
    }
}

/// The signature label and parameter names of the built-ins from `wantarray` to `getgrgid`.
pub open spec fn builtin_signature_system(name: Seq<char>) -> Option<(Seq<char>, Seq<Seq<char>>)> {
    if name == "wantarray"@ {
        Some(("wantarray"@, Seq::empty()))
    } else if name == "abs"@ {
        Some(("abs VALUE"@, seq!["VALUE"@]))
    } else if name == "int"@ {
        Some(("int EXPR"@, seq!["EXPR"@]))
    } else if name == "sqrt"@ {
        Some(("sqrt EXPR"@, seq!["EXPR"@]))
    } else if name == "exp"@ {
        Some(("exp EXPR"@, seq!["EXPR"@]))
    } else if name == "log"@ {
        Some(("log EXPR"@, seq!["EXPR"@]))
    } else if name == "sin"@ {
        Some(("sin EXPR"@, seq!["EXPR"@]))
    } else if name == "cos"@ {
        Some(("cos EXPR"@, seq!["EXPR"@]))
    } else if name == "tan"@ {
        Some(("tan EXPR"@, seq!["EXPR"@]))
    } else if name == "atan2"@ {
        Some(("atan2 Y, X"@, seq!["Y"@, "X"@]))
    } else if name == "rand"@ {
        Some(("rand EXPR"@, seq!["EXPR"@]))
    } else if name == "srand"@ {
        Some(("srand EXPR"@, seq!["EXPR"@]))
    } else if name == "system"@ {
        Some(("system LIST"@, seq!["LIST"@]))
    } else if name == "exec"@ {
        Some(("exec LIST"@, seq!["LIST"@]))
    } else if name == "fork"@ {
        Some(("fork"@, Seq::empty()))
    } else if name == "wait"@ {
        Some(("wait"@, Seq::empty()))
    } else if name == "waitpid"@ {
        Some(("waitpid PID, FLAGS"@, seq!["PID"@, "FLAGS"@]))
    } else if name == "kill"@ {
        Some(("kill SIGNAL, LIST"@, seq!["SIGNAL"@, "LIST"@]))
    } else if name == "sleep"@ {
        Some(("sleep EXPR"@, seq!["EXPR"@]))
    } else if name == "alarm"@ {
        Some(("alarm SECONDS"@, seq!["SECONDS"@]))
    } else if name == "exit"@ {
        Some(("exit EXPR"@, seq!["EXPR"@]))
    } else if name == "getpgrp"@ {
        Some(("getpgrp PID"@, seq!["PID"@]))
    } else if name == "setpgrp"@ {
        Some(("setpgrp PID, PGRP"@, seq!["PID"@, "PGRP"@]))
    } else if name == "getppid"@ {
        Some(("getppid"@, Seq::empty()))
    } else if name == "getpriority"@ {
        Some(("getpriority WHICH, WHO"@, seq!["WHICH"@, "WHO"@]))
    } else if name == "setpriority"@ {
        Some(("setpriority WHICH, WHO, PRIORITY"@, seq!["WHICH"@, "WHO"@, "PRIORITY"@]))
    } else if name == "time"@ {
        Some(("time"@, Seq::empty()))
    } else if name == "localtime"@ {
        Some(("localtime EXPR"@, seq!["EXPR"@]))
    } else if name == "gmtime"@ {
        Some(("gmtime EXPR"@, seq!["EXPR"@]))
    } else if name == "times"@ {
        Some(("times"@, Seq::empty()))
    } else if name == "getpwuid"@ {
        Some(("getpwuid UID"@, seq!["UID"@]))
    } else if name == "getpwnam"@ {
        Some(("getpwnam NAME"@, seq!["NAME"@]))
    } else if name == "getgrgid"@ {
        Some(("getgrgid GID"@, seq!["GID"@]))
    } else {
        None
    }
}

/// The signature label and parameter names of the built-ins from `getgrnam` to `lock`.
pub open spec fn builtin_signature_misc(name: Seq<char>) -> Option<(Seq<char>, Seq<Seq<char>>)> {
    if name == "getgrnam"@ {
        Some(("getgrnam NAME"@, seq!["NAME"@]))
    } else if name == "getlogin"@ {
        Some(("getlogin"@, Seq::empty()))
    } else if name == "socket"@ {
        Some(("socket SOCKET, DOMAIN, TYPE, PROTOCOL"@, seq!["SOCKET"@, "DOMAIN"@, "TYPE"@, "PROTOCOL"@]))
    } else if name == "bind"@ {
        Some(("bind SOCKET, NAME"@, seq!["SOCKET"@, "NAME"@]))
    } else if name == "listen"@ {
        Some(("listen SOCKET, QUEUESIZE"@, seq!["SOCKET"@, "QUEUESIZE"@]))
    } else if name == "accept"@ {
        Some(("accept NEWSOCKET, GENERICSOCKET"@, seq!["NEWSOCKET"@, "GENERICSOCKET"@]))
    } else if name == "connect"@ {
        Some(("connect SOCKET, NAME"@, seq!["SOCKET"@, "NAME"@]))
    } else if name == "send"@ {
        Some(("send SOCKET, MSG, FLAGS, TO"@, seq!["SOCKET"@, "MSG"@, "FLAGS"@, "TO"@]))
    } else if name == "recv"@ {
        Some(("recv SOCKET, SCALAR, LENGTH, FLAGS"@, seq!["SOCKET"@, "SCALAR"@, "LENGTH"@, "FLAGS"@]))
    } else if name == "shutdown"@ {
        Some(("shutdown SOCKET, HOW"@, seq!["SOCKET"@, "HOW"@]))
    } else if name == "getsockname"@ {
        Some(("getsockname SOCKET"@, seq!["SOCKET"@]))
    } else if name == "getpeername"@ {
        Some(("getpeername SOCKET"@, seq!["SOCKET"@]))
    } else if name == "eval"@ {
        Some(("eval EXPR"@, seq!["EXPR"@]))
    } else if name == "require"@ {
        Some(("require EXPR"@, seq!["EXPR"@]))
    } else if name == "do"@ {
        Some(("do EXPR"@, seq!["EXPR"@]))
    } else if name == "caller"@ {
        Some(("caller EXPR"@, seq!["EXPR"@]))
    } else if name == "return"@ {
        Some(("return LIST"@, seq!["LIST"@]))
    } else if name == "goto"@ {
        Some(("goto LABEL"@, seq!["LABEL"@]))
    } else if name == "last"@ {
        Some(("last LABEL"@, seq!["LABEL"@]))
    } else if name == "next"@ {
        Some(("next LABEL"@, seq!["LABEL"@]))
    } else if name == "redo"@ {
        Some(("redo LABEL"@, seq!["LABEL"@]))
    } else if name == "tie"@ {
        Some(("tie VARIABLE, CLASSNAME, LIST"@, seq!["VARIABLE"@, "CLASSNAME"@, "LIST"@]))
    } else if name == "untie"@ {
        Some(("untie VARIABLE"@, seq!["VARIABLE"@]))
    } else if name == "tied"@ {
        Some(("tied VARIABLE"@, seq!["VARIABLE"@]))
    } else if name == "dbmopen"@ {
        Some(("dbmopen HASH, DBNAME, MODE"@, seq!["HASH"@, "DBNAME"@, "MODE"@]))
    } else if name == "dbmclose"@ {
        Some(("dbmclose HASH"@, seq!["HASH"@]))
    } else if name == "select"@ {
        Some(("select FILEHANDLE"@, seq!["FILEHANDLE"@]))
    } else if name == "syscall"@ {
        Some(("syscall NUMBER, LIST"@, seq!["NUMBER"@, "LIST"@]))
    } else if name == "dump"@ {
        Some(("dump LABEL"@, seq!["LABEL"@]))
    } else if name == "prototype"@ {
        Some(("prototype FUNCTION"@, seq!["FUNCTION"@]))
    } else if name == "lock"@ {
        Some(("lock THING"@, seq!["THING"@]))
    } else {
        None
    }
}

/// The signature label and parameter names of a built-in function.
pub open spec fn builtin_signature(name: Seq<char>) -> Option<(Seq<char>, Seq<Seq<char>>)> {
    match builtin_signature_core(name) {
        Some(s) => Some(s),
        None => match builtin_signature_files(name) {
            Some(s) => Some(s),
            None => match builtin_signature_system(name) {
                Some(s) => Some(s),
                None => builtin_signature_misc(name),
            },
        },
    }
}

pub open spec fn str_views(v: Seq<&str>) -> Seq<Seq<char>> {
    v.map_values(|s: &str| s@)
}

fn builtin_signature_core_parts(name: &str) -> (r: Option<(&'static str, Vec<&'static str>)>)
    ensures
        match r {
            Some((label, params)) => builtin_signature_core(name@) == Some((label@, str_views(params@))),
            None => builtin_signature_core(name@) is None,
        },
{
    if str_eq(name, "print") {
        let params: Vec<&'static str> = vec!["LIST"];
        assert(str_views(params@) =~= seq!["LIST"@]);
        return Some(("print LIST", params));
    }
    if str_eq(name, "printf") {
        let params: Vec<&'static str> = vec!["FORMAT", "LIST"];
        assert(str_views(params@) =~= seq!["FORMAT"@, "LIST"@]);
        return Some(("printf FORMAT, LIST", params));
    }
    if str_eq(name, "open") {
        let params: Vec<&'static str> = vec!["FILEHANDLE", "MODE", "EXPR"];
        assert(str_views(params@) =~= seq!["FILEHANDLE"@, "MODE"@, "EXPR"@]);
        return Some(("open FILEHANDLE, MODE, EXPR", params));
    }
    if str_eq(name, "close") {
        let params: Vec<&'static str> = vec!["FILEHANDLE"];
        assert(str_views(params@) =~= seq!["FILEHANDLE"@]);
        return Some(("close FILEHANDLE", params));
    }
    if str_eq(name, "read") {
        let params: Vec<&'static str> = vec!["FILEHANDLE", "SCALAR", "LENGTH", "OFFSET"];
        assert(str_views(params@) =~= seq!["FILEHANDLE"@, "SCALAR"@, "LENGTH"@, "OFFSET"@]);
        return Some(("read FILEHANDLE, SCALAR, LENGTH, OFFSET", params));
    }
    if str_eq(name, "write") {
        let params: Vec<&'static str> = vec!["FILEHANDLE"];
        assert(str_views(params@) =~= seq!["FILEHANDLE"@]);
        return Some(("write FILEHANDLE", params));
    }
    if str_eq(name, "die") {
        let params: Vec<&'static str> = vec!["LIST"];
        assert(str_views(params@) =~= seq!["LIST"@]);
        return Some(("die LIST", params));
    }
    if str_eq(name, "warn") {
        let params: Vec<&'static str> = vec!["LIST"];
        assert(str_views(params@) =~= seq!["LIST"@]);
        return Some(("warn LIST", params));
    }
    if str_eq(name, "substr") {
        let params: Vec<&'static str> = vec!["EXPR", "OFFSET", "LENGTH", "REPLACEMENT"];
        assert(str_views(params@) =~= seq!["EXPR"@, "OFFSET"@, "LENGTH"@, "REPLACEMENT"@]);
        return Some(("substr EXPR, OFFSET, LENGTH, REPLACEMENT", params));
    }
    if str_eq(name, "length") {
        let params: Vec<&'static str> = vec!["EXPR"];
        assert(str_views(params@) =~= seq!["EXPR"@]);
        return Some(("length EXPR", params));
    }
    if str_eq(name, "index") {
        let params: Vec<&'static str> = vec!["STR", "SUBSTR", "POSITION"];
        assert(str_views(params@) =~= seq!["STR"@, "SUBSTR"@, "POSITION"@]);
        return Some(("index STR, SUBSTR, POSITION", params));
    }
    if str_eq(name, "rindex") {
        let params: Vec<&'static str> = vec!["STR", "SUBSTR", "POSITION"];
        assert(str_views(params@) =~= seq!["STR"@, "SUBSTR"@, "POSITION"@]);
        return Some(("rindex STR, SUBSTR, POSITION", params));
    }
    if str_eq(name, "sprintf") {
        let params: Vec<&'static str> = vec!["FORMAT", "LIST"];
        assert(str_views(params@) =~= seq!["FORMAT"@, "LIST"@]);
        return Some(("sprintf FORMAT, LIST", params));
    }
    if str_eq(name, "join") {
        let params: Vec<&'static str> = vec!["EXPR", "LIST"];
        assert(str_views(params@) =~= seq!["EXPR"@, "LIST"@]);
        return Some(("join EXPR, LIST", params));
    }
    if str_eq(name, "split") {
        let params: Vec<&'static str> = vec!["/PATTERN/", "EXPR", "LIMIT"];
        assert(str_views(params@) =~= seq!["/PATTERN/"@, "EXPR"@, "LIMIT"@]);
        return Some(("split /PATTERN/, EXPR, LIMIT", params));
    }
    if str_eq(name, "push") {
        let params: Vec<&'static str> = vec!["ARRAY", "LIST"];
        assert(str_views(params@) =~= seq!["ARRAY"@, "LIST"@]);
        return Some(("push ARRAY, LIST", params));
    }
    if str_eq(name, "pop") {
        let params: Vec<&'static str> = vec!["ARRAY"];
        assert(str_views(params@) =~= seq!["ARRAY"@]);
        return Some(("pop ARRAY", params));
    }
    if str_eq(name, "shift") {
        let params: Vec<&'static str> = vec!["ARRAY"];
        assert(str_views(params@) =~= seq!["ARRAY"@]);
        return Some(("shift ARRAY", params));
    }
    if str_eq(name, "unshift") {
        let params: Vec<&'static str> = vec!["ARRAY", "LIST"];
        assert(str_views(params@) =~= seq!["ARRAY"@, "LIST"@]);
        return Some(("unshift ARRAY, LIST", params));
    }
    if str_eq(name, "splice") {
        let params: Vec<&'static str> = vec!["ARRAY", "OFFSET", "LENGTH", "LIST"];
        assert(str_views(params@) =~= seq!["ARRAY"@, "OFFSET"@, "LENGTH"@, "LIST"@]);
        return Some(("splice ARRAY, OFFSET, LENGTH, LIST", params));
    }
    if str_eq(name, "grep") {
        let params: Vec<&'static str> = vec!["BLOCK", "LIST"];
        assert(str_views(params@) =~= seq!["BLOCK"@, "LIST"@]);
        return Some(("grep BLOCK LIST", params));
    }
    if str_eq(name, "map") {
        let params: Vec<&'static str> = vec!["BLOCK", "LIST"];
        assert(str_views(params@) =~= seq!["BLOCK"@, "LIST"@]);
        return Some(("map BLOCK LIST", params));
    }
    if str_eq(name, "sort") {
        let params: Vec<&'static str> = vec!["BLOCK", "LIST"];
        assert(str_views(params@) =~= seq!["BLOCK"@, "LIST"@]);
        return Some(("sort BLOCK LIST", params));
    }
    if str_eq(name, "reverse") {
        let params: Vec<&'static str> = vec!["LIST"];
        assert(str_views(params@) =~= seq!["LIST"@]);
        return Some(("reverse LIST", params));
    }
    if str_eq(name, "keys") {
        let params: Vec<&'static str> = vec!["HASH"];
        assert(str_views(params@) =~= seq!["HASH"@]);
        return Some(("keys HASH", params));
    }
    if str_eq(name, "values") {
        let params: Vec<&'static str> = vec!["HASH"];
        assert(str_views(params@) =~= seq!["HASH"@]);
        return Some(("values HASH", params));
    }
    if str_eq(name, "each") {
        let params: Vec<&'static str> = vec!["HASH"];
        assert(str_views(params@) =~= seq!["HASH"@]);
        return Some(("each HASH", params));
    }
    if str_eq(name, "exists") {
        let params: Vec<&'static str> = vec!["EXPR"];
        assert(str_views(params@) =~= seq!["EXPR"@]);
        return Some(("exists EXPR", params));
    }
    if str_eq(name, "delete") {
        let params: Vec<&'static str> = vec!["EXPR"];
        assert(str_views(params@) =~= seq!["EXPR"@]);
        return Some(("delete EXPR", params));
    }
    if str_eq(name, "defined") {
        let params: Vec<&'static str> = vec!["EXPR"];
        assert(str_views(params@) =~= seq!["EXPR"@]);
        return Some(("defined EXPR", params));
    }
    if str_eq(name, "undef") {
        let params: Vec<&'static str> = vec!["EXPR"];
        assert(str_views(params@) =~= seq!["EXPR"@]);
        return Some(("undef EXPR", params));
    }
    if str_eq(name, "ref") {
        let params: Vec<&'static str> = vec!["EXPR"];
        assert(str_views(params@) =~= seq!["EXPR"@]);
        return Some(("ref EXPR", params));
    }
    if str_eq(name, "bless") {
        let params: Vec<&'static str> = vec!["REF", "CLASSNAME"];
        assert(str_views(params@) =~= seq!["REF"@, "CLASSNAME"@]);
        return Some(("bless REF, CLASSNAME", params));
    }
    None
}

fn builtin_signature_files_parts(name: &str) -> (r: Option<(&'static str, Vec<&'static str>)>)
    ensures
        match r {
            Some((label, params)) => builtin_signature_files(name@) == Some((label@, str_views(params@))),
            None => builtin_signature_files(name@) is None,
        },
{
    if str_eq(name, "chomp") {
        let params: Vec<&'static str> = vec!["VARIABLE"];
        assert(str_views(params@) =~= seq!["VARIABLE"@]);
        return Some(("chomp VARIABLE", params));
    }
    if str_eq(name, "chop") {
        let params: Vec<&'static str> = vec!["VARIABLE"];
        assert(str_views(params@) =~= seq!["VARIABLE"@]);
        return Some(("chop VARIABLE", params));
    }
    if str_eq(name, "chr") {
        let params: Vec<&'static str> = vec!["NUMBER"];
        assert(str_views(params@) =~= seq!["NUMBER"@]);
        return Some(("chr NUMBER", params));
    }
    if str_eq(name, "ord") {
        let params: Vec<&'static str> = vec!["EXPR"];
        assert(str_views(params@) =~= seq!["EXPR"@]);
        return Some(("ord EXPR", params));
    }
    if str_eq(name, "lc") {
        let params: Vec<&'static str> = vec!["EXPR"];
        assert(str_views(params@) =~= seq!["EXPR"@]);
        return Some(("lc EXPR", params));
    }
    if str_eq(name, "uc") {
        let params: Vec<&'static str> = vec!["EXPR"];
        assert(str_views(params@) =~= seq!["EXPR"@]);
        return Some(("uc EXPR", params));
    }
    if str_eq(name, "lcfirst") {
        let params: Vec<&'static str> = vec!["EXPR"];
        assert(str_views(params@) =~= seq!["EXPR"@]);
        return Some(("lcfirst EXPR", params));
    }
    if str_eq(name, "ucfirst") {
        let params: Vec<&'static str> = vec!["EXPR"];
        assert(str_views(params@) =~= seq!["EXPR"@]);
        return Some(("ucfirst EXPR", params));
    }
    if str_eq(name, "seek") {
        let params: Vec<&'static str> = vec!["FILEHANDLE", "POSITION", "WHENCE"];
        assert(str_views(params@) =~= seq!["FILEHANDLE"@, "POSITION"@, "WHENCE"@]);
        return Some(("seek FILEHANDLE, POSITION, WHENCE", params));
    }
    if str_eq(name, "tell") {
        let params: Vec<&'static str> = vec!["FILEHANDLE"];
        assert(str_views(params@) =~= seq!["FILEHANDLE"@]);
        return Some(("tell FILEHANDLE", params));
    }
    if str_eq(name, "stat") {
        let params: Vec<&'static str> = vec!["EXPR"];
        assert(str_views(params@) =~= seq!["EXPR"@]);
        return Some(("stat EXPR", params));
    }
    if str_eq(name, "lstat") {
        let params: Vec<&'static str> = vec!["EXPR"];
        assert(str_views(params@) =~= seq!["EXPR"@]);
        return Some(("lstat EXPR", params));
    }
    if str_eq(name, "chmod") {
        let params: Vec<&'static str> = vec!["MODE", "LIST"];
        assert(str_views(params@) =~= seq!["MODE"@, "LIST"@]);
        return Some(("chmod MODE, LIST", params));
    }
    if str_eq(name, "chown") {
        let params: Vec<&'static str> = vec!["UID", "GID", "LIST"];
        assert(str_views(params@) =~= seq!["UID"@, "GID"@, "LIST"@]);
        return Some(("chown UID, GID, LIST", params));
    }
    if str_eq(name, "unlink") {
        let params: Vec<&'static str> = vec!["LIST"];
        assert(str_views(params@) =~= seq!["LIST"@]);
        return Some(("unlink LIST", params));
    }
    if str_eq(name, "rename") {
        let params: Vec<&'static str> = vec!["OLDNAME", "NEWNAME"];
        assert(str_views(params@) =~= seq!["OLDNAME"@, "NEWNAME"@]);
        return Some(("rename OLDNAME, NEWNAME", params));
    }
    if str_eq(name, "mkdir") {
        let params: Vec<&'static str> = vec!["FILENAME", "MODE"];
        assert(str_views(params@) =~= seq!["FILENAME"@, "MODE"@]);
        return Some(("mkdir FILENAME, MODE", params));
    }
    if str_eq(name, "rmdir") {
        let params: Vec<&'static str> = vec!["FILENAME"];
        assert(str_views(params@) =~= seq!["FILENAME"@]);
        return Some(("rmdir FILENAME", params));
    }
    if str_eq(name, "opendir") {
        let params: Vec<&'static str> = vec!["DIRHANDLE", "EXPR"];
        assert(str_views(params@) =~= seq!["DIRHANDLE"@, "EXPR"@]);
        return Some(("opendir DIRHANDLE, EXPR", params));
    }
    if str_eq(name, "readdir") {
        let params: Vec<&'static str> = vec!["DIRHANDLE"];
        assert(str_views(params@) =~= seq!["DIRHANDLE"@]);
        return Some(("readdir DIRHANDLE", params));
    }
    if str_eq(name, "closedir") {
        let params: Vec<&'static str> = vec!["DIRHANDLE"];
        assert(str_views(params@) =~= seq!["DIRHANDLE"@]);
        return Some(("closedir DIRHANDLE", params));
    }
    if str_eq(name, "link") {
        let params: Vec<&'static str> = vec!["OLDFILE", "NEWFILE"];
        assert(str_views(params@) =~= seq!["OLDFILE"@, "NEWFILE"@]);
        return Some(("link OLDFILE, NEWFILE", params));
    }
    if str_eq(name, "symlink") {
        let params: Vec<&'static str> = vec!["OLDFILE", "NEWFILE"];
        assert(str_views(params@) =~= seq!["OLDFILE"@, "NEWFILE"@]);
        return Some(("symlink OLDFILE, NEWFILE", params));
    }
    if str_eq(name, "readlink") {
        let params: Vec<&'static str> = vec!["EXPR"];
        assert(str_views(params@) =~= seq!["EXPR"@]);
        return Some(("readlink EXPR", params));
    }
    if str_eq(name, "truncate") {
        let params: Vec<&'static str> = vec!["FILEHANDLE", "LENGTH"];
        assert(str_views(params@) =~= seq!["FILEHANDLE"@, "LENGTH"@]);
        return Some(("truncate FILEHANDLE, LENGTH", params));
    }
    if str_eq(name, "pack") {
        let params: Vec<&'static str> = vec!["TEMPLATE", "LIST"];
        assert(str_views(params@) =~= seq!["TEMPLATE"@, "LIST"@]);
        return Some(("pack TEMPLATE, LIST", params));
    }
    if str_eq(name, "unpack") {
        let params: Vec<&'static str> = vec!["TEMPLATE", "EXPR"];
        assert(str_views(params@) =~= seq!["TEMPLATE"@, "EXPR"@]);
        return Some(("unpack TEMPLATE, EXPR", params));
    }
    if str_eq(name, "quotemeta") {
        let params: Vec<&'static str> = vec!["EXPR"];
        assert(str_views(params@) =~= seq!["EXPR"@]);
        return Some(("quotemeta EXPR", params));
    }
    if str_eq(name, "hex") {
        let params: Vec<&'static str> = vec!["EXPR"];
        assert(str_views(params@) =~= seq!["EXPR"@]);
        return Some(("hex EXPR", params));
    }
    if str_eq(name, "oct") {
        let params: Vec<&'static str> = vec!["EXPR"];
        assert(str_views(params@) =~= seq!["EXPR"@]);
        return Some(("oct EXPR", params));
    }
    if str_eq(name, "vec") {
        let params: Vec<&'static str> = vec!["EXPR", "OFFSET", "BITS"];
        assert(str_views(params@) =~= seq!["EXPR"@, "OFFSET"@, "BITS"@]);
        return Some(("vec EXPR, OFFSET, BITS", params));
    }
    if str_eq(name, "crypt") {
        let params: Vec<&'static str> = vec!["PLAINTEXT", "SALT"];
        assert(str_views(params@) =~= seq!["PLAINTEXT"@, "SALT"@]);
        return Some(("crypt PLAINTEXT, SALT", params));
    }
    if str_eq(name, "scalar") {
        let params: Vec<&'static str> = vec!["EXPR"];
        assert(str_views(params@) =~= seq!["EXPR"@]);
        return Some(("scalar EXPR", params));
    }
    None
}

fn builtin_signature_system_parts(name: &str) -> (r: Option<(&'static str, Vec<&'static str>)>)
    ensures
        match r {
            Some((label, params)) => builtin_signature_system(name@) == Some((label@, str_views(params@))),
            None => builtin_signature_system(name@) is None,
        },
{
    if str_eq(name, "wantarray") {
        let params: Vec<&'static str> = Vec::new();
        assert(str_views(params@) =~= Seq::<Seq<char>>::empty());
        return Some(("wantarray", params));
    }
    if str_eq(name, "abs") {
        let params: Vec<&'static str> = vec!["VALUE"];
        assert(str_views(params@) =~= seq!["VALUE"@]);
        return Some(("abs VALUE", params));
    }
    if str_eq(name, "int") {
        let params: Vec<&'static str> = vec!["EXPR"];
        assert(str_views(params@) =~= seq!["EXPR"@]);
        return Some(("int EXPR", params));
    }
    if str_eq(name, "sqrt") {
        let params: Vec<&'static str> = vec!["EXPR"];
        assert(str_views(params@) =~= seq!["EXPR"@]);
        return Some(("sqrt EXPR", params));
    }
    if str_eq(name, "exp") {
        let params: Vec<&'static str> = vec!["EXPR"];
        assert(str_views(params@) =~= seq!["EXPR"@]);
        return Some(("exp EXPR", params));
    }
    if str_eq(name, "log") {
        let params: Vec<&'static str> = vec!["EXPR"];
        assert(str_views(params@) =~= seq!["EXPR"@]);
        return Some(("log EXPR", params));
    }
    if str_eq(name, "sin") {
        let params: Vec<&'static str> = vec!["EXPR"];
        assert(str_views(params@) =~= seq!["EXPR"@]);
        return Some(("sin EXPR", params));
    }
    if str_eq(name, "cos") {
        let params: Vec<&'static str> = vec!["EXPR"];
        assert(str_views(params@) =~= seq!["EXPR"@]);
        return Some(("cos EXPR", params));
    }
    if str_eq(name, "tan") {
        let params: Vec<&'static str> = vec!["EXPR"];
        assert(str_views(params@) =~= seq!["EXPR"@]);
        return Some(("tan EXPR", params));
    }
    if str_eq(name, "atan2") {
        let params: Vec<&'static str> = vec!["Y", "X"];
        assert(str_views(params@) =~= seq!["Y"@, "X"@]);
        return Some(("atan2 Y, X", params));
    }
    if str_eq(name, "rand") {
        let params: Vec<&'static str> = vec!["EXPR"];
        assert(str_views(params@) =~= seq!["EXPR"@]);
        return Some(("rand EXPR", params));
    }
    if str_eq(name, "srand") {
        let params: Vec<&'static str> = vec!["EXPR"];
        assert(str_views(params@) =~= seq!["EXPR"@]);
        return Some(("srand EXPR", params));
    }
    if str_eq(name, "system") {
        let params: Vec<&'static str> = vec!["LIST"];
        assert(str_views(params@) =~= seq!["LIST"@]);
        return Some(("system LIST", params));
    }
    if str_eq(name, "exec") {
        let params: Vec<&'static str> = vec!["LIST"];
        assert(str_views(params@) =~= seq!["LIST"@]);
        return Some(("exec LIST", params));
    }
    if str_eq(name, "fork") {
        let params: Vec<&'static str> = Vec::new();
        assert(str_views(params@) =~= Seq::<Seq<char>>::empty());
        return Some(("fork", params));
    }
    if str_eq(name, "wait") {
        let params: Vec<&'static str> = Vec::new();
        assert(str_views(params@) =~= Seq::<Seq<char>>::empty());
        return Some(("wait", params));
    }
    if str_eq(name, "waitpid") {
        let params: Vec<&'static str> = vec!["PID", "FLAGS"];
        assert(str_views(params@) =~= seq!["PID"@, "FLAGS"@]);
        return Some(("waitpid PID, FLAGS", params));
    }
    if str_eq(name, "kill") {
        let params: Vec<&'static str> = vec!["SIGNAL", "LIST"];
        assert(str_views(params@) =~= seq!["SIGNAL"@, "LIST"@]);
        return Some(("kill SIGNAL, LIST", params));
    }
    if str_eq(name, "sleep") {
        let params: Vec<&'static str> = vec!["EXPR"];
        assert(str_views(params@) =~= seq!["EXPR"@]);
        return Some(("sleep EXPR", params));
    }
    if str_eq(name, "alarm") {
        let params: Vec<&'static str> = vec!["SECONDS"];
        assert(str_views(params@) =~= seq!["SECONDS"@]);
        return Some(("alarm SECONDS", params));
    }
    if str_eq(name, "exit") {
        let params: Vec<&'static str> = vec!["EXPR"];
        assert(str_views(params@) =~= seq!["EXPR"@]);
        return Some(("exit EXPR", params));
    }
    if str_eq(name, "getpgrp") {
        let params: Vec<&'static str> = vec!["PID"];
        assert(str_views(params@) =~= seq!["PID"@]);
        return Some(("getpgrp PID", params));
    }
    if str_eq(name, "setpgrp") {
        let params: Vec<&'static str> = vec!["PID", "PGRP"];
        assert(str_views(params@) =~= seq!["PID"@, "PGRP"@]);
        return Some(("setpgrp PID, PGRP", params));
    }
    if str_eq(name, "getppid") {
        let params: Vec<&'static str> = Vec::new();
        assert(str_views(params@) =~= Seq::<Seq<char>>::empty());
        return Some(("getppid", params));
    }
    if str_eq(name, "getpriority") {
        let params: Vec<&'static str> = vec!["WHICH", "WHO"];
        assert(str_views(params@) =~= seq!["WHICH"@, "WHO"@]);
        return Some(("getpriority WHICH, WHO", params));
    }
    if str_eq(name, "setpriority") {
        let params: Vec<&'static str> = vec!["WHICH", "WHO", "PRIORITY"];
        assert(str_views(params@) =~= seq!["WHICH"@, "WHO"@, "PRIORITY"@]);
        return Some(("setpriority WHICH, WHO, PRIORITY", params));
    }
    if str_eq(name, "time") {
        let params: Vec<&'static str> = Vec::new();
        assert(str_views(params@) =~= Seq::<Seq<char>>::empty());
        return Some(("time", params));
    }
    if str_eq(name, "localtime") {
        let params: Vec<&'static str> = vec!["EXPR"];
        assert(str_views(params@) =~= seq!["EXPR"@]);
        return Some(("localtime EXPR", params));
    }
    if str_eq(name, "gmtime") {
        let params: Vec<&'static str> = vec!["EXPR"];
        assert(str_views(params@) =~= seq!["EXPR"@]);
        return Some(("gmtime EXPR", params));
    }
    if str_eq(name, "times") {
        let params: Vec<&'static str> = Vec::new();
        assert(str_views(params@) =~= Seq::<Seq<char>>::empty());
        return Some(("times", params));
    }
    if str_eq(name, "getpwuid") {
        let params: Vec<&'static str> = vec!["UID"];
        assert(str_views(params@) =~= seq!["UID"@]);
        return Some(("getpwuid UID", params));
    }
    if str_eq(name, "getpwnam") {
        let params: Vec<&'static str> = vec!["NAME"];
        assert(str_views(params@) =~= seq!["NAME"@]);
        return Some(("getpwnam NAME", params));
    }
    if str_eq(name, "getgrgid") {
        let params: Vec<&'static str> = vec!["GID"];
        assert(str_views(params@) =~= seq!["GID"@]);
        return Some(("getgrgid GID", params));
    }
    None
}

fn builtin_signature_misc_parts(name: &str) -> (r: Option<(&'static str, Vec<&'static str>)>)
    ensures
        match r {
            Some((label, params)) => builtin_signature_misc(name@) == Some((label@, str_views(params@))),
            None => builtin_signature_misc(name@) is None,
        },
{
    if str_eq(name, "getgrnam") {
        let params: Vec<&'static str> = vec!["NAME"];
        assert(str_views(params@) =~= seq!["NAME"@]);
        return Some(("getgrnam NAME", params));
    }
    if str_eq(name, "getlogin") {
        let params: Vec<&'static str> = Vec::new();
        assert(str_views(params@) =~= Seq::<Seq<char>>::empty());
        return Some(("getlogin", params));
    }
    if str_eq(name, "socket") {
        let params: Vec<&'static str> = vec!["SOCKET", "DOMAIN", "TYPE", "PROTOCOL"];
        assert(str_views(params@) =~= seq!["SOCKET"@, "DOMAIN"@, "TYPE"@, "PROTOCOL"@]);
        return Some(("socket SOCKET, DOMAIN, TYPE, PROTOCOL", params));
    }
    if str_eq(name, "bind") {
        let params: Vec<&'static str> = vec!["SOCKET", "NAME"];
        assert(str_views(params@) =~= seq!["SOCKET"@, "NAME"@]);
        return Some(("bind SOCKET, NAME", params));
    }
    if str_eq(name, "listen") {
        let params: Vec<&'static str> = vec!["SOCKET", "QUEUESIZE"];
        assert(str_views(params@) =~= seq!["SOCKET"@, "QUEUESIZE"@]);
        return Some(("listen SOCKET, QUEUESIZE", params));
    }
    if str_eq(name, "accept") {
        let params: Vec<&'static str> = vec!["NEWSOCKET", "GENERICSOCKET"];
        assert(str_views(params@) =~= seq!["NEWSOCKET"@, "GENERICSOCKET"@]);
        return Some(("accept NEWSOCKET, GENERICSOCKET", params));
    }
    if str_eq(name, "connect") {
        let params: Vec<&'static str> = vec!["SOCKET", "NAME"];
        assert(str_views(params@) =~= seq!["SOCKET"@, "NAME"@]);
        return Some(("connect SOCKET, NAME", params));
    }
    if str_eq(name, "send") {
        let params: Vec<&'static str> = vec!["SOCKET", "MSG", "FLAGS", "TO"];
        assert(str_views(params@) =~= seq!["SOCKET"@, "MSG"@, "FLAGS"@, "TO"@]);
        return Some(("send SOCKET, MSG, FLAGS, TO", params));
    }
    if str_eq(name, "recv") {
        let params: Vec<&'static str> = vec!["SOCKET", "SCALAR", "LENGTH", "FLAGS"];
        assert(str_views(params@) =~= seq!["SOCKET"@, "SCALAR"@, "LENGTH"@, "FLAGS"@]);
        return Some(("recv SOCKET, SCALAR, LENGTH, FLAGS", params));
    }
    if str_eq(name, "shutdown") {
        let params: Vec<&'static str> = vec!["SOCKET", "HOW"];
        assert(str_views(params@) =~= seq!["SOCKET"@, "HOW"@]);
        return Some(("shutdown SOCKET, HOW", params));
    }
    if str_eq(name, "getsockname") {
        let params: Vec<&'static str> = vec!["SOCKET"];
        assert(str_views(params@) =~= seq!["SOCKET"@]);
        return Some(("getsockname SOCKET", params));
    }
    if str_eq(name, "getpeername") {
        let params: Vec<&'static str> = vec!["SOCKET"];
        assert(str_views(params@) =~= seq!["SOCKET"@]);
        return Some(("getpeername SOCKET", params));
    }
    if str_eq(name, "eval") {
        let params: Vec<&'static str> = vec!["EXPR"];
        assert(str_views(params@) =~= seq!["EXPR"@]);
        return Some(("eval EXPR", params));
    }
    if str_eq(name, "require") {
        let params: Vec<&'static str> = vec!["EXPR"];
        assert(str_views(params@) =~= seq!["EXPR"@]);
        return Some(("require EXPR", params));
    }
    if str_eq(name, "do") {
        let params: Vec<&'static str> = vec!["EXPR"];
        assert(str_views(params@) =~= seq!["EXPR"@]);
        return Some(("do EXPR", params));
    }
    if str_eq(name, "caller") {
        let params: Vec<&'static str> = vec!["EXPR"];
        assert(str_views(params@) =~= seq!["EXPR"@]);
        return Some(("caller EXPR", params));
    }
    if str_eq(name, "return") {
        let params: Vec<&'static str> = vec!["LIST"];
        assert(str_views(params@) =~= seq!["LIST"@]);
        return Some(("return LIST", params));
    }
    if str_eq(name, "goto") {
        let params: Vec<&'static str> = vec!["LABEL"];
        assert(str_views(params@) =~= seq!["LABEL"@]);
        return Some(("goto LABEL", params));
    }
    if str_eq(name, "last") {
        let params: Vec<&'static str> = vec!["LABEL"];
        assert(str_views(params@) =~= seq!["LABEL"@]);
        return Some(("last LABEL", params));
    }
    if str_eq(name, "next") {
        let params: Vec<&'static str> = vec!["LABEL"];
        assert(str_views(params@) =~= seq!["LABEL"@]);
        return Some(("next LABEL", params));
    }
    if str_eq(name, "redo") {
        let params: Vec<&'static str> = vec!["LABEL"];
        assert(str_views(params@) =~= seq!["LABEL"@]);
        return Some(("redo LABEL", params));
    }
    if str_eq(name, "tie") {
        let params: Vec<&'static str> = vec!["VARIABLE", "CLASSNAME", "LIST"];
        assert(str_views(params@) =~= seq!["VARIABLE"@, "CLASSNAME"@, "LIST"@]);
        return Some(("tie VARIABLE, CLASSNAME, LIST", params));
    }
    if str_eq(name, "untie") {
        let params: Vec<&'static str> = vec!["VARIABLE"];
        assert(str_views(params@) =~= seq!["VARIABLE"@]);
        return Some(("untie VARIABLE", params));
    }
    if str_eq(name, "tied") {
        let params: Vec<&'static str> = vec!["VARIABLE"];
        assert(str_views(params@) =~= seq!["VARIABLE"@]);
        return Some(("tied VARIABLE", params));
    }
    if str_eq(name, "dbmopen") {
        let params: Vec<&'static str> = vec!["HASH", "DBNAME", "MODE"];
        assert(str_views(params@) =~= seq!["HASH"@, "DBNAME"@, "MODE"@]);
        return Some(("dbmopen HASH, DBNAME, MODE", params));
    }
    if str_eq(name, "dbmclose") {
        let params: Vec<&'static str> = vec!["HASH"];
        assert(str_views(params@) =~= seq!["HASH"@]);
        return Some(("dbmclose HASH", params));
    }
    if str_eq(name, "select") {
        let params: Vec<&'static str> = vec!["FILEHANDLE"];
        assert(str_views(params@) =~= seq!["FILEHANDLE"@]);
        return Some(("select FILEHANDLE", params));
    }
    if str_eq(name, "syscall") {
        let params: Vec<&'static str> = vec!["NUMBER", "LIST"];
        assert(str_views(params@) =~= seq!["NUMBER"@, "LIST"@]);
        return Some(("syscall NUMBER, LIST", params));
    }
    if str_eq(name, "dump") {
        let params: Vec<&'static str> = vec!["LABEL"];
        assert(str_views(params@) =~= seq!["LABEL"@]);
        return Some(("dump LABEL", params));
    }
    if str_eq(name, "prototype") {
        let params: Vec<&'static str> = vec!["FUNCTION"];
        assert(str_views(params@) =~= seq!["FUNCTION"@]);
        return Some(("prototype FUNCTION", params));
    }
    if str_eq(name, "lock") {
        let params: Vec<&'static str> = vec!["THING"];
        assert(str_views(params@) =~= seq!["THING"@]);
        return Some(("lock THING", params));
    }
    None
}
/// `v` is `{"label": label, "parameters": [{"label": p}, ...]}` with one
/// parameter object per name of `params`, in order.
pub open spec fn is_signature(v: JsonValue, label: Seq<char>, params: Seq<Seq<char>>) -> bool {
    let ms = crate::json::members_of(v);
    &&& v is Obj
    &&& ms.len() == 2
    &&& ms[0].key@ == "label"@
    &&& crate::json::is_str(ms[0].value, label)
    &&& ms[1].key@ == "parameters"@
    &&& (ms[1].value matches JsonValue::Arr(ps) && ps@.len() == params.len() && forall|i: int|
        #![trigger ps@[i]]
        0 <= i < params.len() ==> (ps@[i] is Obj && crate::json::members_of(ps@[i]).len() == 1
            && crate::json::members_of(ps@[i])[0].key@ == "label"@ && crate::json::is_str(
            crate::json::members_of(ps@[i])[0].value,
            params[i],
        )))
}

impl LspServer {
    /// Signature help for a built-in function: its signature label and one
    /// parameter per argument name; `None` for a name that is not a built-in.
    pub fn get_builtin_function_signature(&self, function_name: &str) -> (r: Option<JsonValue>)
        ensures
            match builtin_signature(function_name@) {
                Some((label, params)) => r matches Some(v) && is_signature(v, label, params),
                None => r is None,
            },
    {
        let parts = match builtin_signature_core_parts(function_name) {
            Some(p) => Some(p),
            None => match builtin_signature_files_parts(function_name) {
                Some(p) => Some(p),
                None => match builtin_signature_system_parts(function_name) {
                    Some(p) => Some(p),
                    None => builtin_signature_misc_parts(function_name),
                },
            },
        };
        let (label, params) = match parts {
            Some(p) => p,
            None => return None,
        };
        let mut parameters: Vec<JsonValue> = Vec::new();
        let mut i: usize = 0;
        while i < params.len()
            invariant
                i <= params.len(),
                parameters@.len() == i,
                forall|j: int|
                    #![trigger parameters@[j]]
                    0 <= j < i ==> (parameters@[j] is Obj && crate::json::members_of(parameters@[j]).len() == 1
                        && crate::json::members_of(parameters@[j])[0].key@ == "label"@ && crate::json::is_str(
                        crate::json::members_of(parameters@[j])[0].value,
                        str_views(params@)[j],
                    )),
            decreases params.len() - i,
        {
            let mut ms: Vec<JsonMember> = Vec::new();
            ms.push(member("label", str_value(params[i])));
            parameters.push(JsonValue::Obj(ms));
            i = i + 1;
        }
        let mut ms: Vec<JsonMember> = Vec::new();
        ms.push(member("label", str_value(label)));
        ms.push(member("parameters", JsonValue::Arr(parameters)));
        Some(JsonValue::Obj(ms))
    }
}

} // verus!
