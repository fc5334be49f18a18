# wb-switch-core

Switches WorkBuddy and CodeBuddy clients between accounts, keeps their tokens alive,
schedules check-ins and keeps books on credits, usage and limits. The logic is verified
with Verus; files, network, processes and clocks stay outside of it.

## Layout

* `src/` is the verified library. Values that come from or go to JSON are `json::Json`;
  contracts speak of their meaning, `json::JsonV`, and of spec functions beside the
  functions they describe. What spans functions stands as public proof functions.
* `app/` is ordinary Rust around it: it reads and writes, runs processes, sends
  requests, and hands the library plain values.
* `tests/` runs the library on concrete values.

## Conventions

* Flows that alternate work and decisions are steps: a function takes a step and a
  report on how it went, and gives the next step.
* The time, the local time zone and fresh identifiers are arguments, or come from
  functions that claim no more than holds on every machine.
* Sums and differences of doubles are kept as `Json::Calc` and worked out by the caller.
* What is taken over from `serde_json`, `chrono`, `uuid` and the standard library without
  proof is marked `external_body`, with a comment that says what is claimed.
