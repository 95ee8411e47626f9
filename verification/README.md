# cameraman

The backend of a CCTV service that receives camera images, has an AI provider
read them, and recognises Bangladeshi licence plates in the answers.

- `src/` is the verified library (Verus): plate recognition (`plate`,
  `plate_check`, `distance`, `text`, `pattern`), webhook request reading
  (`payload`), provider selection and prompts (`provider`), configuration
  (`config`), errors (`error`), the in-memory stores (`store`) and the events
  built from an analysis (`event`, `legacy`).
- `app/` is the HTTP service around it: axum handlers, PostgreSQL access,
  provider HTTP clients and the JSON rendering.
- `tests/` exercises the library.
