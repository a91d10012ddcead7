//! Hover documentation for Perl's special variables.
use vstd::prelude::*;
use crate::json::{JsonValue, JsonMember, member, str_value, members_of, is_str};
use crate::lifecycle::LspServer;
use crate::text::{str_eq, owned, string_push, str_chars};
use vstd::string::StringSliceAdditionalSpecFns;

verus! {

/// `v` is the hover `{"contents": {"kind": "markdown", "value": text}}`.
pub open spec fn is_markdown_hover(v: JsonValue, text: Seq<char>) -> bool {
    let ms = members_of(v);
    &&& v is Obj
    &&& ms.len() == 1
    &&& ms[0].key@ == "contents"@
    &&& ms[0].value is Obj
    &&& members_of(ms[0].value).len() == 2
    &&& members_of(ms[0].value)[0].key@ == "kind"@
    &&& is_str(members_of(ms[0].value)[0].value, "markdown"@)
    &&& members_of(ms[0].value)[1].key@ == "value"@
    &&& is_str(members_of(ms[0].value)[1].value, text)
}

/// The markdown hover showing `text`.
pub fn markdown_hover(text: &str) -> (r: JsonValue)
    ensures
        is_markdown_hover(r, text@),
{
    let mut contents: Vec<JsonMember> = Vec::new();
    contents.push(member("kind", str_value("markdown")));
    contents.push(member("value", str_value(text)));
    let mut ms: Vec<JsonMember> = Vec::new();
    ms.push(member("contents", JsonValue::Obj(contents)));
    JsonValue::Obj(ms)
}

/// The documentation of the common special variables and compile-time
/// constants.
pub open spec fn special_variable_doc(name: Seq<char>) -> Option<Seq<char>> {
    if name == "$_"@ {
        Some("**`$_` \u{2014} The Default Variable**\n\n\
                 Used implicitly by many builtins: `foreach`, `map`, `grep`, \
                 `print`, `chomp`, and more.  The \"it\" of Perl.\n\n\
                 ```perl\nfor (@items) {\n    print;  # prints $_\n}\n```"@)
    } else if name == "@_"@ {
        Some("**`@_` \u{2014} Subroutine Arguments**\n\n\
                 Contains all arguments passed to the current function. \
                 Use `shift`, `pop`, or list assignment to unpack.\n\n\
                 ```perl\nsub greet {\n    my ($name) = @_;\n\
                     print \"Hello, $name\\n\";\n}\n```"@)
    } else if name == "$!"@ {
        Some("**`$!` \u{2014} OS Error (errno)**\n\n\
                 In numeric context returns the current `errno` value. \
                 In string context returns the corresponding system error \
                 message (like `strerror`).\n\n\
                 ```perl\nopen my $fh, '<', $file\n    or die \"Cannot open $file: $!\";\n```"@)
    } else if name == "$@"@ {
        Some("**`$@` \u{2014} Eval Error**\n\n\
                 Set to the error message when `eval { }` or `eval EXPR` \
                 catches an exception. Empty string when no error occurred.\n\n\
                 ```perl\neval { risky_operation() };\nif ($@) {\n    warn \"Caught: $@\";\n}\n```"@)
    } else if name == "$/"@ {
        Some("**`$/` \u{2014} Input Record Separator**\n\n\
                 Controls what constitutes a \"line\" when reading from a \
                 filehandle.  Defaults to `\\n`.  Set to `undef` to slurp \
                 an entire file at once.\n\n\
                 ```perl\nlocal $/;  # enable slurp mode\nmy $content = <$fh>;\n```"@)
    } else if name == "$\\"@ {
        Some("**`$\\` \u{2014} Output Record Separator**\n\n\
                 Appended after every `print` statement.  Defaults to empty \
                 string (no separator).\n\n\
                 ```perl\nlocal $\\ = \"\\n\";\nprint \"first\";  # prints \"first\\n\"\n```"@)
    } else if name == "$$"@ {
        Some("**`$$` \u{2014} Process ID**\n\n\
                 The PID of the currently running Perl process.  Read-only.\n\n\
                 ```perl\nprint \"PID: $$\\n\";\n```"@)
    } else if name == "$0"@ {
        Some("**`$0` \u{2014} Program Name**\n\n\
                 Contains the name of the script being executed.  Assigning \
                 to it changes the process name visible in `ps`.\n\n\
                 ```perl\nprint \"Running: $0\\n\";\n$0 = \"my-daemon\";\n```"@)
    } else if name == "$;"@ {
        Some("**`$;` \u{2014} Subscript Separator**\n\n\
                 Used in emulating multidimensional hashes: \
                 `$hash{$a,$b}` is really `$hash{join($;, $a, $b)}`. \
                 Defaults to `\\034` (SUBSEP).\n\n\
                 ```perl\n$h{\"x\",\"y\"} = 1;  # key is \"x\\034y\"\n```"@)
    } else if name == "$,"@ {
        Some("**`$,` \u{2014} Output Field Separator**\n\n\
                 Inserted between arguments in a `print` list.  Defaults \
                 to empty string.\n\n\
                 ```perl\nlocal $, = \", \";\nprint \"a\", \"b\", \"c\";  # a, b, c\n```"@)
    } else if name == "$."@ {
        Some("**`$.` \u{2014} Current Line Number**\n\n\
                 The line number of the last line read from the most \
                 recently accessed filehandle.\n\n\
                 ```perl\nwhile (<$fh>) {\n    print \"Line $.: $_\";\n}\n```"@)
    } else if name == "$&"@ {
        Some("**`$&` \u{2014} Matched String**\n\n\
                 Contains the text matched by the last successful pattern \
                 match.  Using it anywhere in a program imposes a performance \
                 penalty on all regexes (mitigated in Perl 5.20+).\n\n\
                 ```perl\n\"Hello World\" =~ /Wo\\w+/;\nprint $&;  # \"World\"\n```"@)
    } else if name == "$'"@ {
        Some("**`$'` \u{2014} Postmatch String**\n\n\
                 Contains the string following the last successful pattern \
                 match.\n\n\
                 ```perl\n\"Hello World\" =~ /\\s/;\nprint $';  # \"World\"\n```"@)
    } else if name == "$`"@ {
        Some("**`$\\`` \u{2014} Prematch String**\n\n\
                 Contains the string preceding the last successful pattern \
                 match.\n\n\
                 ```perl\n\"Hello World\" =~ /\\s/;\nprint $`;  # \"Hello\"\n```"@)
    } else if name == "$+"@ {
        Some("**`$+` \u{2014} Last Bracket Matched**\n\n\
                 Contains the last bracket (capture group) that actually matched \
                 in the last successful regex. Useful when alternation makes it \
                 unknown which branch matched.\n\n\
                 ```perl\n\"1999-12-31\" =~ /(\\d{4})-(\\d{2})-(\\d{2})/;\nprint $+;  # \"31\" (last group)\n```"@)
    } else if name == "@ISA"@ {
        Some("**`@ISA` \u{2014} Inheritance List**\n\n\
                 Defines the parent classes for method resolution. Perl \
                 searches `@ISA` (depth-first by default, C3 with `use mro \
                 'c3'`) when a method is not found in the current package.\n\n\
                 ```perl\npackage Dog;\nour @ISA = ('Animal');\n```"@)
    } else if name == "%ENV"@ {
        Some("**`%ENV` \u{2014} Environment Variables**\n\n\
                 Hash containing the current environment variables. Changes \
                 to `%ENV` are inherited by child processes.\n\n\
                 ```perl\nmy $home = $ENV{HOME};\n$ENV{PATH} .= \":/opt/bin\";\n```"@)
    } else if name == "@INC"@ {
        Some("**`@INC` \u{2014} Module Search Paths**\n\n\
                 List of directories (and code refs) searched when loading \
                 modules via `use` or `require`.  Modify with `use lib` or \
                 `PERL5LIB`.  Note: `.` was removed from `@INC` in Perl 5.26.\n\n\
                 ```perl\nuse lib '/my/modules';\nprint join(\"\\n\", @INC);\n```"@)
    } else if name == "%INC"@ {
        Some("**`%INC` \u{2014} Loaded Modules**\n\n\
                 Records every file loaded by `use`, `require`, or `do`. \
                 Keys are the module filenames (e.g. `Foo/Bar.pm`), values \
                 are the full paths.\n\n\
                 ```perl\nuse Data::Dumper;\nprint $INC{'Data/Dumper.pm'};\n```"@)
    } else if name == "$^W"@ {
        Some("**`$^W` \u{2014} Warning Flag**\n\n\
                 Global flag that enables or disables warnings at runtime. \
                 Prefer `use warnings` for lexical scoping.\n\n\
                 ```perl\nlocal $^W = 1;  # enable warnings temporarily\n```"@)
    } else if name == "$^O"@ {
        Some("**`$^O` \u{2014} Operating System Name**\n\n\
                 Contains the OS name the Perl binary was built for \
                 (e.g. `linux`, `darwin`, `MSWin32`).  Useful for \
                 platform-specific code paths.\n\n\
                 ```perl\nif ($^O eq 'MSWin32') {\n    # Windows-specific\n}\n```"@)
    } else if name == "$?"@ {
        Some("**`$?` \u{2014} Child Process Status**\n\n\
                 Set after `system()`, backtick execution (`` ` ` ``), `wait()`, \
                 or `waitpid()`. The value is the raw wait status: the exit code \
                 is `$? >> 8` and the signal number (if any) is `$? & 127`.\n\n\
                 ```perl\nsystem('ls');\nif ($? == -1) {\n    warn \"fork failed: $!\";\n} elsif ($? >> 8) {\n    warn \"exit status: \", $? >> 8;\n}\n```"@)
    } else if name == "$^V"@ {
        Some("**`$^V` \u{2014} Perl Version**\n\n\
                 The Perl interpreter version as a v-string (e.g. `v5.38.0`). \
                 Use `use v5.10;` syntax for version requirements or compare \
                 with `$^V ge v5.10.0`.\n\n\
                 ```perl\nprint \"Perl \", $^V, \"\\n\";  # e.g. Perl v5.38.0\n```"@)
    } else if name == "@ARGV"@ {
        Some("**`@ARGV` \u{2014} Command-Line Arguments**\n\n\
                 Contains the command-line arguments passed to the script \
                 (not including the script name, which is in `$0`). \
                 `shift` without arguments removes and returns the first element.\n\n\
                 ```perl\nmy $file = shift @ARGV // die \"Usage: $0 <file>\\n\";\n```"@)
    } else if name == "%SIG"@ {
        Some("**`%SIG` \u{2014} Signal Handlers**\n\n\
                 Hash mapping signal names to handler code refs (or `'IGNORE'` / \
                 `'DEFAULT'`). Use `local %SIG` to temporarily override handlers.\n\n\
                 ```perl\n$SIG{INT}  = sub { print \"Interrupted\\n\"; exit 1 };\n$SIG{TERM} = 'IGNORE';\n```"@)
    } else if name == "$^A"@ {
        Some("**`$^A` \u{2014} Accumulator for `format()`**\n\n\
                 The write accumulator for `format()` and `write()` output. \
                 Normally you do not access this directly; the `formline()` \
                 builtin writes into it and `write()` flushes it to the \
                 current output filehandle.\n\n\
                 ```perl\nformline(\"@<<<\", \"hi\");\nprint $^A;  # \"hi \"\n```"@)
    } else if name == "$^T"@ {
        Some("**`$^T` \u{2014} Script Start Time**\n\n\
                 The time (in seconds since the epoch, like `time()`) at which \
                 the script began running. Used for age calculations relative to \
                 script startup and for the `-M`, `-A`, `-C` file-test operators.\n\n\
                 ```perl\nprint \"Running for \", time() - $^T, \" seconds\\n\";\n```"@)
    } else if name == "$|"@ {
        Some("**`$|` \u{2014} Output Autoflush**\n\n\
                 If set to a non-zero value, Perl flushes the output buffer of the \
                 currently selected filehandle after every `print` or `write`. \
                 Set to `1` to enable autoflush (useful for real-time progress output \
                 or when writing to pipes).\n\n\
                 ```perl\n$| = 1;  # enable autoflush on STDOUT\nprint \"Progress: 50%\\n\";\n```"@)
    } else if name == "__FILE__"@ {
        Some("**`__FILE__`** \u{2014} Compile-time constant: the current source file name"@)
    } else if name == "__LINE__"@ {
        Some("**`__LINE__`** \u{2014} Compile-time constant: the current line number"@)
    } else if name == "__PACKAGE__"@ {
        Some("**`__PACKAGE__`** \u{2014} Compile-time constant: the current package name \
                 (`\"main\"` at top level; `undef` inside `package BLOCK` with no name)"@)
    } else if name == "__SUB__"@ {
        Some("**`__SUB__`** \u{2014} Compile-time constant: a reference to the current \
                 subroutine (Perl 5.16+, requires `use feature 'current_sub'`)"@)
    } else {
        None
    }
}

fn special_variable_text(name: &str) -> (r: Option<&'static str>)
    ensures
        match r {
            Some(t) => special_variable_doc(name@) == Some(t@),
            None => special_variable_doc(name@) is None,
        },
{
    if str_eq(name, "$_") {
        return Some("**`$_` \u{2014} The Default Variable**\n\n\
                 Used implicitly by many builtins: `foreach`, `map`, `grep`, \
                 `print`, `chomp`, and more.  The \"it\" of Perl.\n\n\
                 ```perl\nfor (@items) {\n    print;  # prints $_\n}\n```");
    }
    if str_eq(name, "@_") {
        return Some("**`@_` \u{2014} Subroutine Arguments**\n\n\
                 Contains all arguments passed to the current function. \
                 Use `shift`, `pop`, or list assignment to unpack.\n\n\
                 ```perl\nsub greet {\n    my ($name) = @_;\n\
                     print \"Hello, $name\\n\";\n}\n```");
    }
    if str_eq(name, "$!") {
        return Some("**`$!` \u{2014} OS Error (errno)**\n\n\
                 In numeric context returns the current `errno` value. \
                 In string context returns the corresponding system error \
                 message (like `strerror`).\n\n\
                 ```perl\nopen my $fh, '<', $file\n    or die \"Cannot open $file: $!\";\n```");
    }
    if str_eq(name, "$@") {
        return Some("**`$@` \u{2014} Eval Error**\n\n\
                 Set to the error message when `eval { }` or `eval EXPR` \
                 catches an exception. Empty string when no error occurred.\n\n\
                 ```perl\neval { risky_operation() };\nif ($@) {\n    warn \"Caught: $@\";\n}\n```");
    }
    if str_eq(name, "$/") {
        return Some("**`$/` \u{2014} Input Record Separator**\n\n\
                 Controls what constitutes a \"line\" when reading from a \
                 filehandle.  Defaults to `\\n`.  Set to `undef` to slurp \
                 an entire file at once.\n\n\
                 ```perl\nlocal $/;  # enable slurp mode\nmy $content = <$fh>;\n```");
    }
    if str_eq(name, "$\\") {
        return Some("**`$\\` \u{2014} Output Record Separator**\n\n\
                 Appended after every `print` statement.  Defaults to empty \
                 string (no separator).\n\n\
                 ```perl\nlocal $\\ = \"\\n\";\nprint \"first\";  # prints \"first\\n\"\n```");
    }
    if str_eq(name, "$$") {
        return Some("**`$$` \u{2014} Process ID**\n\n\
                 The PID of the currently running Perl process.  Read-only.\n\n\
                 ```perl\nprint \"PID: $$\\n\";\n```");
    }
    if str_eq(name, "$0") {
        return Some("**`$0` \u{2014} Program Name**\n\n\
                 Contains the name of the script being executed.  Assigning \
                 to it changes the process name visible in `ps`.\n\n\
                 ```perl\nprint \"Running: $0\\n\";\n$0 = \"my-daemon\";\n```");
    }
    if str_eq(name, "$;") {
        return Some("**`$;` \u{2014} Subscript Separator**\n\n\
                 Used in emulating multidimensional hashes: \
                 `$hash{$a,$b}` is really `$hash{join($;, $a, $b)}`. \
                 Defaults to `\\034` (SUBSEP).\n\n\
                 ```perl\n$h{\"x\",\"y\"} = 1;  # key is \"x\\034y\"\n```");
    }
    if str_eq(name, "$,") {
        return Some("**`$,` \u{2014} Output Field Separator**\n\n\
                 Inserted between arguments in a `print` list.  Defaults \
                 to empty string.\n\n\
                 ```perl\nlocal $, = \", \";\nprint \"a\", \"b\", \"c\";  # a, b, c\n```");
    }
    if str_eq(name, "$.") {
        return Some("**`$.` \u{2014} Current Line Number**\n\n\
                 The line number of the last line read from the most \
                 recently accessed filehandle.\n\n\
                 ```perl\nwhile (<$fh>) {\n    print \"Line $.: $_\";\n}\n```");
    }
    if str_eq(name, "$&") {
        return Some("**`$&` \u{2014} Matched String**\n\n\
                 Contains the text matched by the last successful pattern \
                 match.  Using it anywhere in a program imposes a performance \
                 penalty on all regexes (mitigated in Perl 5.20+).\n\n\
                 ```perl\n\"Hello World\" =~ /Wo\\w+/;\nprint $&;  # \"World\"\n```");
    }
    if str_eq(name, "$'") {
        return Some("**`$'` \u{2014} Postmatch String**\n\n\
                 Contains the string following the last successful pattern \
                 match.\n\n\
                 ```perl\n\"Hello World\" =~ /\\s/;\nprint $';  # \"World\"\n```");
    }
    if str_eq(name, "$`") {
        return Some("**`$\\`` \u{2014} Prematch String**\n\n\
                 Contains the string preceding the last successful pattern \
                 match.\n\n\
                 ```perl\n\"Hello World\" =~ /\\s/;\nprint $`;  # \"Hello\"\n```");
    }
    if str_eq(name, "$+") {
        return Some("**`$+` \u{2014} Last Bracket Matched**\n\n\
                 Contains the last bracket (capture group) that actually matched \
                 in the last successful regex. Useful when alternation makes it \
                 unknown which branch matched.\n\n\
                 ```perl\n\"1999-12-31\" =~ /(\\d{4})-(\\d{2})-(\\d{2})/;\nprint $+;  # \"31\" (last group)\n```");
    }
    if str_eq(name, "@ISA") {
        return Some("**`@ISA` \u{2014} Inheritance List**\n\n\
                 Defines the parent classes for method resolution. Perl \
                 searches `@ISA` (depth-first by default, C3 with `use mro \
                 'c3'`) when a method is not found in the current package.\n\n\
                 ```perl\npackage Dog;\nour @ISA = ('Animal');\n```");
    }
    if str_eq(name, "%ENV") {
        return Some("**`%ENV` \u{2014} Environment Variables**\n\n\
                 Hash containing the current environment variables. Changes \
                 to `%ENV` are inherited by child processes.\n\n\
                 ```perl\nmy $home = $ENV{HOME};\n$ENV{PATH} .= \":/opt/bin\";\n```");
    }
    if str_eq(name, "@INC") {
        return Some("**`@INC` \u{2014} Module Search Paths**\n\n\
                 List of directories (and code refs) searched when loading \
                 modules via `use` or `require`.  Modify with `use lib` or \
                 `PERL5LIB`.  Note: `.` was removed from `@INC` in Perl 5.26.\n\n\
                 ```perl\nuse lib '/my/modules';\nprint join(\"\\n\", @INC);\n```");
    }
    if str_eq(name, "%INC") {
        return Some("**`%INC` \u{2014} Loaded Modules**\n\n\
                 Records every file loaded by `use`, `require`, or `do`. \
                 Keys are the module filenames (e.g. `Foo/Bar.pm`), values \
                 are the full paths.\n\n\
                 ```perl\nuse Data::Dumper;\nprint $INC{'Data/Dumper.pm'};\n```");
    }
    if str_eq(name, "$^W") {
        return Some("**`$^W` \u{2014} Warning Flag**\n\n\
                 Global flag that enables or disables warnings at runtime. \
                 Prefer `use warnings` for lexical scoping.\n\n\
                 ```perl\nlocal $^W = 1;  # enable warnings temporarily\n```");
    }
    if str_eq(name, "$^O") {
        return Some("**`$^O` \u{2014} Operating System Name**\n\n\
                 Contains the OS name the Perl binary was built for \
                 (e.g. `linux`, `darwin`, `MSWin32`).  Useful for \
                 platform-specific code paths.\n\n\
                 ```perl\nif ($^O eq 'MSWin32') {\n    # Windows-specific\n}\n```");
    }
    if str_eq(name, "$?") {
        return Some("**`$?` \u{2014} Child Process Status**\n\n\
                 Set after `system()`, backtick execution (`` ` ` ``), `wait()`, \
                 or `waitpid()`. The value is the raw wait status: the exit code \
                 is `$? >> 8` and the signal number (if any) is `$? & 127`.\n\n\
                 ```perl\nsystem('ls');\nif ($? == -1) {\n    warn \"fork failed: $!\";\n} elsif ($? >> 8) {\n    warn \"exit status: \", $? >> 8;\n}\n```");
    }
    if str_eq(name, "$^V") {
        return Some("**`$^V` \u{2014} Perl Version**\n\n\
                 The Perl interpreter version as a v-string (e.g. `v5.38.0`). \
                 Use `use v5.10;` syntax for version requirements or compare \
                 with `$^V ge v5.10.0`.\n\n\
                 ```perl\nprint \"Perl \", $^V, \"\\n\";  # e.g. Perl v5.38.0\n```");
    }
    if str_eq(name, "@ARGV") {
        return Some("**`@ARGV` \u{2014} Command-Line Arguments**\n\n\
                 Contains the command-line arguments passed to the script \
                 (not including the script name, which is in `$0`). \
                 `shift` without arguments removes and returns the first element.\n\n\
                 ```perl\nmy $file = shift @ARGV // die \"Usage: $0 <file>\\n\";\n```");
    }
    if str_eq(name, "%SIG") {
        return Some("**`%SIG` \u{2014} Signal Handlers**\n\n\
                 Hash mapping signal names to handler code refs (or `'IGNORE'` / \
                 `'DEFAULT'`). Use `local %SIG` to temporarily override handlers.\n\n\
                 ```perl\n$SIG{INT}  = sub { print \"Interrupted\\n\"; exit 1 };\n$SIG{TERM} = 'IGNORE';\n```");
    }
    if str_eq(name, "$^A") {
        return Some("**`$^A` \u{2014} Accumulator for `format()`**\n\n\
                 The write accumulator for `format()` and `write()` output. \
                 Normally you do not access this directly; the `formline()` \
                 builtin writes into it and `write()` flushes it to the \
                 current output filehandle.\n\n\
                 ```perl\nformline(\"@<<<\", \"hi\");\nprint $^A;  # \"hi \"\n```");
    }
    if str_eq(name, "$^T") {
        return Some("**`$^T` \u{2014} Script Start Time**\n\n\
                 The time (in seconds since the epoch, like `time()`) at which \
                 the script began running. Used for age calculations relative to \
                 script startup and for the `-M`, `-A`, `-C` file-test operators.\n\n\
                 ```perl\nprint \"Running for \", time() - $^T, \" seconds\\n\";\n```");
    }
    if str_eq(name, "$|") {
        return Some("**`$|` \u{2014} Output Autoflush**\n\n\
                 If set to a non-zero value, Perl flushes the output buffer of the \
                 currently selected filehandle after every `print` or `write`. \
                 Set to `1` to enable autoflush (useful for real-time progress output \
                 or when writing to pipes).\n\n\
                 ```perl\n$| = 1;  # enable autoflush on STDOUT\nprint \"Progress: 50%\\n\";\n```");
    }
    if str_eq(name, "__FILE__") {
        return Some("**`__FILE__`** \u{2014} Compile-time constant: the current source file name");
    }
    if str_eq(name, "__LINE__") {
        return Some("**`__LINE__`** \u{2014} Compile-time constant: the current line number");
    }
    if str_eq(name, "__PACKAGE__") {
        return Some("**`__PACKAGE__`** \u{2014} Compile-time constant: the current package name \
                 (`\"main\"` at top level; `undef` inside `package BLOCK` with no name)");
    }
    if str_eq(name, "__SUB__") {
        return Some("**`__SUB__`** \u{2014} Compile-time constant: a reference to the current \
                 subroutine (Perl 5.16+, requires `use feature 'current_sub'`)");
    }
    None
}
/// The heading and description of Perl's internal shared scalars.
pub open spec fn internal_variable_doc(name: Seq<char>) -> Option<(Seq<char>, Seq<char>)> {
    if name == "$PL_sv_yes"@ || name == "PL_sv_yes"@ {
        Some(("Internal Special Variable"@, "The canonical true scalar used by Perl internals and XS/C code. It is an immutable shared value, so extensions can return or compare against it without allocating a fresh true scalar."@))
    } else if name == "$PL_sv_no"@ || name == "PL_sv_no"@ {
        Some(("Internal Special Variable"@, "The canonical false scalar used by Perl internals and XS/C code. It is an immutable shared value representing Perl's shared false value."@))
    } else if name == "$PL_sv_undef"@ || name == "PL_sv_undef"@ {
        Some(("Internal Special Variable"@, "The canonical undefined scalar used by Perl internals and XS/C code. It represents Perl's shared `undef` value."@))
    } else {
        None
    }
}

/// The hover text of an internal shared scalar named `name`.
pub open spec fn internal_hover_text(name: Seq<char>, heading: Seq<char>, description: Seq<char>) -> Seq<char> {
    "**`"@ + name + "` \u{2014} "@ + heading + "**\n\n"@ + description
        + "\n\n```perl\n# XS/C internals typically treat this as a shared value\n```"@
}

impl LspServer {
    /// Hover for Perl's internal shared scalars (`$PL_sv_yes`, `$PL_sv_no`,
    /// `$PL_sv_undef`, with or without the sigil); `None` for other names.
    pub fn get_internal_special_variable_hover(name: &str) -> (r: Option<JsonValue>)
        ensures
            match internal_variable_doc(name@) {
                Some((heading, description)) => r matches Some(v) && is_markdown_hover(
                    v,
                    internal_hover_text(name@, heading, description),
                ),
                None => r is None,
            },
    {
        let (heading, description) = if str_eq(name, "$PL_sv_yes") || str_eq(name, "PL_sv_yes") {
            ("Internal Special Variable", "The canonical true scalar used by Perl internals and XS/C code. It is an immutable shared value, so extensions can return or compare against it without allocating a fresh true scalar.")
        } else if str_eq(name, "$PL_sv_no") || str_eq(name, "PL_sv_no") {
            ("Internal Special Variable", "The canonical false scalar used by Perl internals and XS/C code. It is an immutable shared value representing Perl's shared false value.")
        } else if str_eq(name, "$PL_sv_undef") || str_eq(name, "PL_sv_undef") {
            ("Internal Special Variable", "The canonical undefined scalar used by Perl internals and XS/C code. It represents Perl's shared `undef` value.")
        } else {
            return None;
        };
        let mut text = owned("**`");
        text.append(name);
        text.append("` \u{2014} ");
        text.append(heading);
        text.append("**\n\n");
        text.append(description);
        text.append("\n\n```perl\n# XS/C internals typically treat this as a shared value\n```");
        Some(markdown_hover(text.as_str()))
    }
}

/// The ordinal suffix of a capture-group digit.
pub open spec fn ordinal_suffix(d: char) -> Seq<char> {
    if d == '1' {
        "st"@
    } else if d == '2' {
        "nd"@
    } else if d == '3' {
        "rd"@
    } else {
        "th"@
    }
}

/// The hover text of the capture-group variable `$d`.
pub open spec fn capture_group_text(d: char) -> Seq<char> {
    "**`$"@ + seq![d] + "` \u{2014} Regex Capture Group "@ + seq![d]
        + "**\n\nContains the text matched by the "@ + seq![d] + ordinal_suffix(d)
        + " set of parentheses in the last successful regex match.  Only valid until the next regex match or the end of the enclosing scope.\n\n```perl\n\"2024-03-15\" =~ /(\\d{4})-(\\d{2})-(\\d{2})/;\nprint $1;  # \"2024\"  (capture group 1)\n```"@
}

/// The hover text of a special variable: an internal shared scalar, a
/// capture group `$1`..`$9`, or one of the documented special variables.
pub open spec fn special_hover_text(name: Seq<char>) -> Option<Seq<char>> {
    match internal_variable_doc(name) {
        Some((heading, description)) => Some(internal_hover_text(name, heading, description)),
        None => if name.len() == 2 && name[0] == '$' && '1' <= name[1] && name[1] <= '9' {
            Some(capture_group_text(name[1]))
        } else {
            special_variable_doc(name)
        },
    }
}

impl LspServer {
    /// Hover documentation for a special variable; `None` when it is not
    /// one of the known ones.
    pub fn get_special_variable_hover(name: &str) -> (r: Option<JsonValue>)
        ensures
            match special_hover_text(name@) {
                Some(t) => r matches Some(v) && is_markdown_hover(v, t),
                None => r is None,
            },
    {
        if let Some(hover) = Self::get_internal_special_variable_hover(name) {
            return Some(hover);
        }
        let chars = str_chars(name);
        if chars.len() == 2 && chars[0] == '$' && '1' <= chars[1] && chars[1] <= '9' {
            let d = chars[1];
            let ord = if d == '1' {
                "st"
            } else if d == '2' {
                "nd"
            } else if d == '3' {
                "rd"
            } else {
                "th"
            };
            let mut text = owned("**`$");
            string_push(&mut text, d);
            text.append("` \u{2014} Regex Capture Group ");
            string_push(&mut text, d);
            text.append("**\n\nContains the text matched by the ");
            string_push(&mut text, d);
            text.append(ord);
            text.append(" set of parentheses in the last successful regex match.  Only valid until the next regex match or the end of the enclosing scope.\n\n```perl\n\"2024-03-15\" =~ /(\\d{4})-(\\d{2})-(\\d{2})/;\nprint $1;  # \"2024\"  (capture group 1)\n```");
            assert(text@ =~= capture_group_text(d));
            return Some(markdown_hover(text.as_str()));
        }
        match special_variable_text(name) {
            Some(t) => Some(markdown_hover(t)),
            None => None,
        }
    }
}

/// A sigil byte: `$`, `@` or `%`.
pub open spec fn sigil_byte(b: u8) -> bool {
    b == 36 || b == 64 || b == 37
}

/// An ASCII letter or digit.
pub open spec fn ascii_alnum(b: u8) -> bool {
    (48 <= b && b <= 57) || (65 <= b && b <= 90) || (97 <= b && b <= 122)
}

/// An ASCII letter.
pub open spec fn ascii_alpha(b: u8) -> bool {
    (65 <= b && b <= 90) || (97 <= b && b <= 122)
}

/// The punctuation characters that form a special variable after `$`:
/// `! @ ? / \ $ ; , . & ' ` + |`.
pub open spec fn special_punct(b: u8) -> bool {
    b == 33 || b == 64 || b == 63 || b == 47 || b == 92 || b == 36 || b == 59 || b == 44 || b == 46
        || b == 38 || b == 39 || b == 96 || b == 43 || b == 124
}

/// The end of the run of ASCII letters, digits and `_` starting at `i`.
pub open spec fn ascii_word_end(b: Seq<u8>, i: int) -> int
    decreases b.len() - i,
{
    if 0 <= i < b.len() && (ascii_alnum(b[i]) || b[i] == 95) {
        ascii_word_end(b, i + 1)
    } else {
        i
    }
}

/// The bytes `PL_sv_`.
pub open spec fn pl_sv_prefix() -> Seq<u8> {
    seq![80u8, 76u8, 95u8, 115u8, 118u8, 95u8]
}

/// The bytes of the special variable at byte `offset` of the text `b`: a
/// caret variable (`$^W`), an internal scalar (`$PL_sv_yes`), or `$`
/// followed by one of the special punctuation characters; the cursor may be
/// on the sigil or just after it.
pub open spec fn special_variable_at(b: Seq<u8>, offset: int) -> Option<Seq<u8>> {
    if offset < 0 || offset >= b.len() {
        None
    } else {
        let sp = if sigil_byte(b[offset]) {
            offset
        } else if offset > 0 && sigil_byte(b[offset - 1]) {
            offset - 1
        } else {
            -1
        };
        if sp < 0 || sp + 1 >= b.len() {
            None
        } else {
            let next = sp + 1;
            if b[sp] == 36 && b[next] == 94 && next + 1 < b.len() && ascii_alpha(b[next + 1]) {
                Some(seq![36u8, 94u8, b[next + 1]])
            } else if b[sp] == 36 && next + 6 <= b.len() && b.subrange(next, next + 6) == pl_sv_prefix() {
                Some(b.subrange(sp, ascii_word_end(b, next + 6)))
            } else if b[sp] == 36 && !ascii_alnum(b[next]) && b[next] != 95 && special_punct(b[next]) {
                Some(seq![36u8, b[next]])
            } else {
                None
            }
        }
    }
}

/// The characters of ASCII bytes.
pub open spec fn ascii_chars(b: Seq<u8>) -> Seq<char> {
    b.map_values(|x: u8| x as char)
}

fn push_ascii(out: &mut String, b: u8)
    requires
        b < 128,
    ensures
        final(out)@ == old(out)@.push(b as char),
{
    string_push(out, b as char);
}

proof fn lemma_ascii_word_end_bounds(b: Seq<u8>, i: int)
    requires
        0 <= i <= b.len(),
    ensures
        i <= ascii_word_end(b, i) <= b.len(),
        forall|k: int| i <= k < ascii_word_end(b, i) ==> (ascii_alnum(#[trigger] b[k]) || b[k] == 95),
    decreases b.len() - i,
{
    if i < b.len() && (ascii_alnum(b[i]) || b[i] == 95) {
        lemma_ascii_word_end_bounds(b, i + 1);
    }
}

impl LspServer {
    /// The special (punctuation, caret or internal) variable at byte
    /// `offset` of `text`, which the ordinary token reader misses.
    pub fn extract_special_variable(text: &str, offset: usize) -> (r: Option<String>)
        ensures
            match special_variable_at(text.spec_bytes(), offset as int) {
                Some(bytes) => r matches Some(s) && s@ == ascii_chars(bytes),
                None => r is None,
            },
    {
        let bytes = text.as_bytes();
        let len = bytes.len();
        if offset >= len {
            return None;
        }
        let sp = if bytes[offset] == 36 || bytes[offset] == 64 || bytes[offset] == 37 {
            offset
        } else if offset > 0 && (bytes[offset - 1] == 36 || bytes[offset - 1] == 64 || bytes[offset - 1] == 37) {
            offset - 1
        } else {
            return None;
        };
        let next = sp + 1;
        if next >= len {
            return None;
        }
        let sigil = bytes[sp];
        let next_ch = bytes[next];
        if sigil == 36 && next_ch == 94 && next + 1 < len {
            let caret = bytes[next + 1];
            if (65 <= caret && caret <= 90) || (97 <= caret && caret <= 122) {
                let mut out = String::new();
                push_ascii(&mut out, 36);
                push_ascii(&mut out, 94);
                push_ascii(&mut out, caret);
                assert(out@ =~= ascii_chars(seq![36u8, 94u8, caret]));
                return Some(out);
            }
        }
        if sigil == 36 && len - next >= 6 && bytes[next] == 80 && bytes[next + 1] == 76 && bytes[next + 2] == 95
            && bytes[next + 3] == 115 && bytes[next + 4] == 118 && bytes[next + 5] == 95 {
            assert(bytes@.subrange(next as int, next + 6) =~= pl_sv_prefix());
            assert(forall|j: int| next <= j < next + 6 ==> #[trigger] bytes@[j] < 128);
            let mut end = next + 6;
            proof {
                lemma_ascii_word_end_bounds(bytes@, end as int);
            }
            while end < len && (((48 <= bytes[end] && bytes[end] <= 57) || (65 <= bytes[end] && bytes[end] <= 90) || (97
                <= bytes[end] && bytes[end] <= 122)) || bytes[end] == 95)
                invariant
                    len == bytes@.len(),
                    next + 6 <= end <= len,
                    ascii_word_end(bytes@, next + 6) == ascii_word_end(bytes@, end as int),
                decreases len - end,
            {
                end = end + 1;
            }
            let mut out = String::new();
            let mut k = sp;
            while k < end
                invariant
                    len == bytes@.len(),
                    sp <= k <= end <= len,
                    forall|j: int| next + 6 <= j < end ==> (ascii_alnum(#[trigger] bytes@[j]) || bytes@[j] == 95),
                    bytes@.subrange(next as int, next + 6) == pl_sv_prefix(),
                    forall|j: int| next <= j < next + 6 ==> #[trigger] bytes@[j] < 128,
                    bytes@[sp as int] == 36,
                    next == sp + 1,
                    out@ == ascii_chars(bytes@.subrange(sp as int, k as int)),
                decreases end - k,
            {
                assert(bytes@[k as int] < 128);
                push_ascii(&mut out, bytes[k]);
                k = k + 1;
                assert(out@ =~= ascii_chars(bytes@.subrange(sp as int, k as int)));
            }
            return Some(out);
        }
        if sigil == 36 && !((48 <= next_ch && next_ch <= 57) || (65 <= next_ch && next_ch <= 90) || (97 <= next_ch
            && next_ch <= 122)) && next_ch != 95 {
            if next_ch == 33 || next_ch == 64 || next_ch == 63 || next_ch == 47 || next_ch == 92 || next_ch == 36
                || next_ch == 59 || next_ch == 44 || next_ch == 46 || next_ch == 38 || next_ch == 39 || next_ch == 96
                || next_ch == 43 || next_ch == 124 {
                let mut out = String::new();
                push_ascii(&mut out, 36);
                push_ascii(&mut out, next_ch);
                assert(out@ =~= ascii_chars(seq![36u8, next_ch]));
                return Some(out);
            }
        }
        None
    }
}

} // verus!
