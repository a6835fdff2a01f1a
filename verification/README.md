# Symbolication

Turns the addresses in native stack traces, minidumps and Apple crash reports into functions, files
and lines. The library in `src/` is verified with Verus; `app/` runs it as an actor.

A request goes through these steps:

1. `stackwalk` walks the stacks of a minidump with the unwind information that was fetched for it,
   and `minidump` turns what was found into a request. `apple` does the same with an Apple crash
   report. `processor` and `crash_report` hold the calls into the crates that read the two formats,
   and `layout` and `unwind` say which minidumps and which unwind information can be handed to the
   stack walker.
2. `lookup` puts the images of a request into the order of their addresses, and finds the image that
   an address belongs to. `fetch` says which symbol caches are needed, and what became of the images
   once they were fetched. `object_id` says what object files are searched by.
3. `symbolize` looks the frames up in the symbol caches of `symcache`, and has the names of the
   functions demangled by `demangle`, which tells with `swift` which names can be. `thread_laws`
   states what holds of every stack trace that comes out.
4. `merge` adds what a crash report says of the process to the result.
5. `requests` keeps the table of the requests that are worked on and answers polls; `response` holds
   the answers and the errors.

Each type has a mathematical model, which its `deep_view` gives and the contracts speak of. What
holds across functions is stated by the proof functions whose names start with `law_`. The functions
marked `external_body` call outside crates; their doc comments say what is taken for granted.
