# judge-server

The judging core of a competitive-programming judge server, verified with
Verus, and the program around it.

- `src/` — the verified library:
  - `decimal`: reading and writing the decimal texts of the usage records
    (`parse_u64`, `parse_i64`, `format_u64`, `format_i64`), with the law that
    a written number reads back unchanged;
  - `text`: comparing a produced output with the expected one up to trailing
    white space;
  - `judge`: statuses and their names, the verdict (time limit over memory
    limit over a failed run over wrong answer), the published result;
  - `executor`: problems and test cases, the paths of the test-case files,
    counting the input files, CPU time and memory of a run, the usage records
    that keep the largest value, how a run ended, the compile command (C, or
    C++ for `cpp`/`c++`) and the
    resource limits of a run;
  - `filter`: the syscall deny list of the sandbox and its BPF program,
    compiled by seccompiler;
  - `jail`: libseccomp actions, their codes, and the rules a libseccomp
    context is loaded with;
  - `consumer`: the status published for a handled submission (a compile
    failure is a compilation error).
- `app/` — the server: RabbitMQ consumer and publisher, file I/O, `fork`,
  `execve`, `setrlimit`, installing the filters, JSON (de)serialisation.
- `tests/` — tests of the library on concrete values.
