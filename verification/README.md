# owo_agent_core

The core of an agent that works on a user's machine: it talks to a model, runs
the tools that the model asks for under the rules of a policy, keeps sessions,
works towards goals, shares work among workers, learns actions and drives a
desktop.

* `src/` is the library. Everything in it is verified with Verus: each function
  states what it returns or changes, and the laws that span functions are proved
  as public proof functions at the end of the modules.
* `tests/` runs the library on concrete values.
* `app/` is the program around the library: the command line, files, processes,
  sockets, databases and the terminal. It asks the library what to do next and
  reports back what came of it.

What the library takes from outside crates (JSON text, digests, signatures,
base64, pictures, time and random identifiers) stands behind small functions in
`json`, `crypto`, `clock`, `vision`, `text`, `eval` and `fleet::message`, each
with a note on what it claims.
