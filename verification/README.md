# mini_env

A small Windows tool that manages environment variables from the Explorer
context menu, with its logic verified by Verus.

* `src/` is the verified library:
  * `env_utils` — where an environment variable lives in the registry and what
    data an update writes (`new` replaces, anything else appends `;value`);
  * `setting_app` — the context-menu entries, their key paths and command
    lines, and the checks on a request to add an entry;
  * `menu_plan` — the registry plans that register, clear and extend the menu,
    and the laws on what they do to the registry;
  * `reg_session` — a state machine that hands out the steps of a registry plan
    one at a time, asks for the program's path when a plan needs it, and skips
    the steps nested under a failed `Open` or `Create`;
  * `reg_effect` — a model of what successful steps do to the registry's keys
    and values, with key and value names compared under a per-character case
    map, as the registry compares them;
  * `cli` — what the program does for given command-line options;
  * `text` — string helpers and the Unicode case mapping of the standard library.
* `app/` is the Windows program: command-line parsing, the GUI, and the registry
  calls that carry out the plans.
* `tests/` exercises the library on concrete values.
