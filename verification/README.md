# rhc-bot

A Telegram bot that guards groups. A new member has to send the bot, in a private
message, a registration command that works:

    rhc connect --activation-key=KEY --organization=ORG
    subscription-manager register --activationkey=KEY --org=ORG

The bot tries the registration in a container. Who does not verify themselves in
time, or fails twice, is banned. Users on a list are let in without verification.

The library in `src/` holds everything that the bot decides, with contracts that
Verus proves. The program in `app/` does what the library says: it talks to
Telegram, keeps the database and the settings, and runs `podman` and `systemctl`.

| module | subject |
| --- | --- |
| `bot`, `bot_laws` | the course of the bot, step by step, and what holds of it |
| `verification`, `image` | an attempt at a verification, and the image it runs in |
| `effect`, `pending`, `whitelist` | what is to be done, and the two tables |
| `telegram`, `json`, `welcome` | calls and replies |
| `credentials`, `interval`, `pattern` | the texts that are matched with `regex` |
| `cli`, `menu`, `config`, `service` | commands, menu, settings and service |
| `logs`, `paths`, `clock` | files and time |
| `text`, `number` | characters and numbers |
