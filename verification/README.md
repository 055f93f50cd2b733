# autobooru

A Discord bot that posts images from Danbooru: `/danbooru <tag>` answers with
a random post, and `/autobooru new <tag>` registers a channel to receive a
random post for the tag every minute through a webhook.

- `src/` is the verified library (Verus): request URLs and their query
  strings (`client`), the embeds that show a post (`embed`), the stored hook
  (`model`), the registration state machine (`commands`), the decisions of
  the event handler (`handler`) and of the error handler (`error`), the
  per-round posting plan and the steps of each job (`task`), and the text
  helpers they share (`text`).
- `app/` is the bot itself: Discord (poise/serenity), Postgres (sqlx), HTTP
  (reqwest) and the timer (tokio). The library decides what to request, what
  to send, what to answer and what to do after a failure; app/ performs it.
- `tests/` runs the library on concrete values.
